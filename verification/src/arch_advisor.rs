//! Architecture advice: what the validation of a project calls for, a
//! summary by severity, and the advice as text.
use vstd::prelude::*;
use crate::text::{owned, push_str, push_decimal, decimal};
use crate::arch_service::{ValidationResult, Violation, LayerStats, Severity};

verus! {

/// One piece of advice.
#[derive(Debug, Clone)]
pub struct Advice {
    pub id: String,
    pub category: AdviceCategory,
    pub severity: AdviceSeverity,
    pub title: String,
    pub description: String,
    pub suggestion: String,
    pub affected_files: Vec<String>,
    pub effort: EffortEstimate,
    pub impact: ImpactLevel,
}

#[derive(Debug, Clone, Copy, PartialEq, Eq, Structural)]
pub enum AdviceCategory {
    ArchitectureDrift,
    Complexity,
    Coupling,
    TestCoverage,
    CodeQuality,
    Documentation,
    BestPractice,
}

#[derive(Debug, Clone, Copy, PartialEq, Eq, Structural)]
pub enum AdviceSeverity {
    Critical,
    High,
    Medium,
    Low,
}

#[derive(Debug, Clone, Copy, PartialEq, Eq, Structural)]
pub enum EffortEstimate {
    Minutes,
    Hours,
    Days,
    Weeks,
}

#[derive(Debug, Clone, Copy, PartialEq, Eq, Structural)]
pub enum ImpactLevel {
    Transformational,
    High,
    Medium,
    Low,
}

/// The advice and its summary.
#[derive(Debug, Clone)]
pub struct AdviceResult {
    pub advices: Vec<Advice>,
    pub summary: AdviceSummary,
}

/// Counts by severity and the actions they call for.
#[derive(Debug, Clone)]
pub struct AdviceSummary {
    pub critical_count: usize,
    pub high_count: usize,
    pub medium_count: usize,
    pub low_count: usize,
    pub total_issues: usize,
    pub recommended_actions: Vec<String>,
}

/// An advice as plain values.
pub ghost struct AdviceView {
    pub id: Seq<char>,
    pub category: AdviceCategory,
    pub severity: AdviceSeverity,
    pub title: Seq<char>,
    pub description: Seq<char>,
    pub suggestion: Seq<char>,
    pub affected_files: Seq<Seq<char>>,
    pub effort: EffortEstimate,
    pub impact: ImpactLevel,
}

pub open spec fn advice_view(a: Advice) -> AdviceView {
    AdviceView {
        id: a.id@,
        category: a.category,
        severity: a.severity,
        title: a.title@,
        description: a.description@,
        suggestion: a.suggestion@,
        affected_files: strings(a.affected_files@),
        effort: a.effort,
        impact: a.impact,
    }
}

pub open spec fn advice_views(a: Seq<Advice>) -> Seq<AdviceView> {
    a.map_values(|x: Advice| advice_view(x))
}

/// The advice for one layer's counts.
pub open spec fn layer_advice(name: Seq<char>, s: LayerStats) -> Seq<AdviceView> {
    (if s.violations > 0 {
        seq![AdviceView {
            id: "arch-"@ + name,
            category: AdviceCategory::ArchitectureDrift,
            severity: if s.violations > 3 { AdviceSeverity::Critical } else { AdviceSeverity::High },
            title: name + "层存在架构违规"@,
            description: name + "层有"@ + decimal(s.violations as nat) + "个依赖违规，违反了分层架构原则"@,
            suggestion: "检查"@ + name + "层的import语句，确保只依赖内层（domain -> application -> adapters -> interfaces）"@,
            affected_files: Seq::empty(),
            effort: if s.violations > 5 { EffortEstimate::Hours } else { EffortEstimate::Minutes },
            impact: ImpactLevel::High,
        }]
    } else {
        Seq::empty()
    }) + (if s.external_deps > 2 * s.internal_deps {
        seq![AdviceView {
            id: "coupling-"@ + name,
            category: AdviceCategory::Coupling,
            severity: AdviceSeverity::Medium,
            title: name + "层外部依赖过多"@,
            description: name + "层外部依赖("@ + decimal(s.external_deps as nat) + ")远多于内部依赖("@
                + decimal(s.internal_deps as nat) + ")，可能导致过度耦合"@,
            suggestion: "考虑将部分依赖抽象为Port接口，减少直接依赖"@,
            affected_files: Seq::empty(),
            effort: EffortEstimate::Hours,
            impact: ImpactLevel::Medium,
        }]
    } else {
        Seq::empty()
    })
}

pub open spec fn layers_advice(ls: Seq<(String, LayerStats)>) -> Seq<AdviceView>
    decreases ls.len(),
{
    if ls.len() == 0 { Seq::empty() } else { layers_advice(ls.drop_last()) + layer_advice(ls.last().0@, ls.last().1) }
}

/// The advice for one violation: one when it is an error.
pub open spec fn violation_advice_of(v: Violation) -> Seq<AdviceView> {
    if v.severity == Severity::Error {
        seq![AdviceView {
            id: "violation-"@ + v.file@,
            category: AdviceCategory::ArchitectureDrift,
            severity: AdviceSeverity::Critical,
            title: "非法层间依赖: "@ + v.from_module@ + " -> "@ + v.to_module@,
            description: v.message@,
            suggestion: "移除"@ + v.from_module@ + "对"@ + v.to_module@ + "的依赖，通过Port接口或领域事件进行通信"@,
            affected_files: seq![v.file@],
            effort: EffortEstimate::Minutes,
            impact: ImpactLevel::High,
        }]
    } else {
        Seq::empty()
    }
}

/// The advice for the violations that are errors.
pub open spec fn violations_advice(vs: Seq<Violation>) -> Seq<AdviceView>
    decreases vs.len(),
{
    if vs.len() == 0 {
        Seq::empty()
    } else {
        violations_advice(vs.drop_last()) + violation_advice_of(vs.last())
    }
}

pub open spec fn count_sev(a: Seq<Advice>, s: AdviceSeverity) -> nat
    decreases a.len(),
{
    if a.len() == 0 { 0 } else { count_sev(a.drop_last(), s) + if a.last().severity == s { 1nat } else { 0nat } }
}

pub open spec fn has_category(a: Seq<Advice>, c: AdviceCategory) -> bool {
    exists|i: int| 0 <= i < a.len() && a[i].category == c
}

pub open spec fn actions(a: Seq<Advice>) -> Seq<Seq<char>> {
    (if count_sev(a, AdviceSeverity::Critical) > 0 { seq!["立即修复所有Critical级别的架构违规"@] } else { Seq::empty() })
        + (if count_sev(a, AdviceSeverity::High) > 0 { seq!["优先处理高风险文件和复杂度问题"@] } else { Seq::empty() })
        + (if count_sev(a, AdviceSeverity::Medium) > 0 { seq!["制定计划降低模块耦合度"@] } else { Seq::empty() })
        + (if has_category(a, AdviceCategory::TestCoverage) { seq!["增加测试覆盖率"@] } else { Seq::empty() })
}

pub open spec fn strings(v: Seq<String>) -> Seq<Seq<char>> {
    v.map_values(|s: String| s@)
}

fn push_advice(
    out: &mut Vec<Advice>,
    id: String,
    category: AdviceCategory,
    severity: AdviceSeverity,
    title: String,
    description: String,
    suggestion: String,
    affected_files: Vec<String>,
    effort: EffortEstimate,
    impact: ImpactLevel,
)
    ensures
        advice_views(final(out)@) == advice_views(old(out)@).push(AdviceView {
            id: id@,
            category,
            severity,
            title: title@,
            description: description@,
            suggestion: suggestion@,
            affected_files: strings(affected_files@),
            effort,
            impact,
        }),
{
    let a = Advice { id, category, severity, title, description, suggestion, affected_files, effort, impact };
    let ghost av = advice_view(a);
    out.push(a);
    assert(advice_views(out@) =~= advice_views(old(out)@).push(av));
}

fn cat(a: &str, b: &str) -> (r: String)
    ensures
        r@ == a@ + b@,
{
    let mut r = owned(a);
    push_str(&mut r, b);
    r
}

/// Produces advice from the validation of a project.
pub struct ArchitectureAdvisor;

impl ArchitectureAdvisor {
    pub fn new() -> (r: Self) {
        ArchitectureAdvisor
    }

    fn layer_advices(out: &mut Vec<Advice>, name: &str, s: LayerStats)
        ensures
            advice_views(final(out)@) == advice_views(old(out)@) + layer_advice(name@, s),
    {
        let ghost start = advice_views(out@);
        if s.violations > 0 {
            let mut desc = owned(name);
            push_str(&mut desc, "层有");
            push_decimal(&mut desc, s.violations);
            push_str(&mut desc, "个依赖违规，违反了分层架构原则");
            let mut sugg = owned("检查");
            push_str(&mut sugg, name);
            push_str(&mut sugg, "层的import语句，确保只依赖内层（domain -> application -> adapters -> interfaces）");
            let files: Vec<String> = Vec::new();
            assert(desc@ =~= name@ + "层有"@ + decimal(s.violations as nat) + "个依赖违规，违反了分层架构原则"@);
            assert(sugg@ =~= "检查"@ + name@ + "层的import语句，确保只依赖内层（domain -> application -> adapters -> interfaces）"@);
            assert(strings(files@) =~= Seq::<Seq<char>>::empty());
            push_advice(out, cat("arch-", name), AdviceCategory::ArchitectureDrift,
                if s.violations > 3 { AdviceSeverity::Critical } else { AdviceSeverity::High },
                cat(name, "层存在架构违规"), desc, sugg, files,
                if s.violations > 5 { EffortEstimate::Hours } else { EffortEstimate::Minutes }, ImpactLevel::High);
        }
        let ghost mid = advice_views(out@);
        if s.internal_deps <= usize::MAX / 2 && s.external_deps > s.internal_deps * 2 {
            let mut desc = owned(name);
            push_str(&mut desc, "层外部依赖(");
            push_decimal(&mut desc, s.external_deps);
            push_str(&mut desc, ")远多于内部依赖(");
            push_decimal(&mut desc, s.internal_deps);
            push_str(&mut desc, ")，可能导致过度耦合");
            let files: Vec<String> = Vec::new();
            assert(desc@ =~= name@ + "层外部依赖("@ + decimal(s.external_deps as nat) + ")远多于内部依赖("@
                + decimal(s.internal_deps as nat) + ")，可能导致过度耦合"@);
            assert(strings(files@) =~= Seq::<Seq<char>>::empty());
            push_advice(out, cat("coupling-", name), AdviceCategory::Coupling, AdviceSeverity::Medium,
                cat(name, "层外部依赖过多"), desc, owned("考虑将部分依赖抽象为Port接口，减少直接依赖"), files,
                EffortEstimate::Hours, ImpactLevel::Medium);
        }
        assert(advice_views(out@) =~= start + layer_advice(name@, s));
    }

    fn violation_advice(out: &mut Vec<Advice>, v: &Violation)
        ensures
            advice_views(final(out)@) == advice_views(old(out)@) + violation_advice_of(*v),
    {
        let ghost start = advice_views(out@);
        if v.severity == Severity::Error {
            let mut title = owned("非法层间依赖: ");
            push_str(&mut title, v.from_module.as_str());
            push_str(&mut title, " -> ");
            push_str(&mut title, v.to_module.as_str());
            let mut sugg = owned("移除");
            push_str(&mut sugg, v.from_module.as_str());
            push_str(&mut sugg, "对");
            push_str(&mut sugg, v.to_module.as_str());
            push_str(&mut sugg, "的依赖，通过Port接口或领域事件进行通信");
            let mut files: Vec<String> = Vec::new();
            files.push(owned(v.file.as_str()));
            assert(title@ =~= "非法层间依赖: "@ + v.from_module@ + " -> "@ + v.to_module@);
            assert(sugg@ =~= "移除"@ + v.from_module@ + "对"@ + v.to_module@ + "的依赖，通过Port接口或领域事件进行通信"@);
            assert(strings(files@) =~= seq![v.file@]);
            push_advice(out, cat("violation-", v.file.as_str()), AdviceCategory::ArchitectureDrift,
                AdviceSeverity::Critical, title, owned(v.message.as_str()), sugg, files, EffortEstimate::Minutes,
                ImpactLevel::High);
        } else {
            assert(advice_views(out@) =~= start + Seq::<AdviceView>::empty());
        }
    }

    /// The advice that the validation calls for: per layer, then per error.
    pub fn generate_architecture_advices(&self, validation: &ValidationResult) -> (r: Vec<Advice>)
        ensures
            advice_views(r@) == layers_advice(validation.layer_stats@) + violations_advice(validation.violations@),
    {
        let mut out: Vec<Advice> = Vec::new();
        let ls = &validation.layer_stats;
        for i in 0..ls.len()
            invariant
                advice_views(out@) == layers_advice(ls@.take(i as int)),
        {
            Self::layer_advices(&mut out, ls[i].0.as_str(), ls[i].1);
            assert(ls@.take(i + 1).drop_last() =~= ls@.take(i as int));
        }
        assert(ls@.take(ls@.len() as int) =~= ls@);
        let ghost mid = advice_views(out@);
        let vs = &validation.violations;
        for i in 0..vs.len()
            invariant
                advice_views(out@) == mid + violations_advice(vs@.take(i as int)),
        {
            Self::violation_advice(&mut out, &vs[i]);
            assert(vs@.take(i + 1).drop_last() =~= vs@.take(i as int));
            assert(advice_views(out@) =~= mid + violations_advice(vs@.take(i + 1)));
        }
        assert(vs@.take(vs@.len() as int) =~= vs@);
        out
    }

    fn count(a: &Vec<Advice>, s: AdviceSeverity) -> (r: usize)
        ensures
            r as nat == count_sev(a@, s),
    {
        let mut n: usize = 0;
        for i in 0..a.len()
            invariant
                n as nat == count_sev(a@.take(i as int), s),
                n <= i,
        {
            assert(a@.take(i + 1).drop_last() =~= a@.take(i as int));
            if a[i].severity == s {
                n = n + 1;
            }
        }
        assert(a@.take(a@.len() as int) =~= a@);
        n
    }

    /// Counts by severity, and the actions they call for.
    pub fn generate_summary(&self, advices: &Vec<Advice>) -> (r: AdviceSummary)
        ensures
            r.critical_count == count_sev(advices@, AdviceSeverity::Critical),
            r.high_count == count_sev(advices@, AdviceSeverity::High),
            r.medium_count == count_sev(advices@, AdviceSeverity::Medium),
            r.low_count == count_sev(advices@, AdviceSeverity::Low),
            r.total_issues == advices@.len(),
            strings(r.recommended_actions@) == actions(advices@),
    {
        let c = Self::count(advices, AdviceSeverity::Critical);
        let h = Self::count(advices, AdviceSeverity::High);
        let m = Self::count(advices, AdviceSeverity::Medium);
        let l = Self::count(advices, AdviceSeverity::Low);
        let mut tests = false;
        for i in 0..advices.len()
            invariant
                tests == exists|j: int| 0 <= j < i && advices@[j].category == AdviceCategory::TestCoverage,
        {
            if advices[i].category == AdviceCategory::TestCoverage {
                tests = true;
            }
        }
        let mut acts: Vec<String> = Vec::new();
        if c > 0 {
            acts.push(owned("立即修复所有Critical级别的架构违规"));
        }
        if h > 0 {
            acts.push(owned("优先处理高风险文件和复杂度问题"));
        }
        if m > 0 {
            acts.push(owned("制定计划降低模块耦合度"));
        }
        if tests {
            acts.push(owned("增加测试覆盖率"));
        }
        assert(strings(acts@) =~= actions(advices@));
        AdviceSummary {
            critical_count: c,
            high_count: h,
            medium_count: m,
            low_count: l,
            total_issues: advices.len(),
            recommended_actions: acts,
        }
    }

    /// The advice for a project: that of its validation followed by
    /// `further` (the advice drawn from its entropy report), with the summary.
    pub fn advise(&self, validation: &ValidationResult, further: Vec<Advice>) -> (r: AdviceResult)
        ensures
            advice_views(r.advices@) == layers_advice(validation.layer_stats@) + violations_advice(validation.violations@)
                + advice_views(further@),
            r.summary.total_issues == r.advices@.len(),
            strings(r.summary.recommended_actions@) == actions(r.advices@),
    {
        let mut advices = self.generate_architecture_advices(validation);
        let ghost start = advice_views(advices@);
        let mut rest = further;
        let ghost f = further@;
        let n = rest.len();
        let mut i: usize = 0;
        while i < n
            invariant
                n == f.len(),
                i <= n,
                rest@ == f.skip(i as int),
                advice_views(advices@) == start + advice_views(f.take(i as int)),
            decreases n - i,
        {
            let a = rest.remove(0);
            assert(a == f[i as int]);
            assert(f.skip(i + 1) =~= f.skip(i as int).remove(0));
            let ghost before = advices@;
            advices.push(a);
            assert(f.take(i + 1) =~= f.take(i as int).push(a));
            assert(advice_views(advices@) =~= advice_views(before).push(advice_view(a)));
            assert(advice_views(f.take(i + 1)) =~= advice_views(f.take(i as int)).push(advice_view(a)));
            assert(advice_views(advices@) =~= start + advice_views(f.take(i + 1)));
            i = i + 1;
        }
        assert(f.take(n as int) =~= f);
        let summary = self.generate_summary(&advices);
        AdviceResult { advices, summary }
    }
}

pub open spec fn sev_icon(s: AdviceSeverity) -> Seq<char> {
    match s {
        AdviceSeverity::Critical => "🔴"@,
        AdviceSeverity::High => "🟠"@,
        AdviceSeverity::Medium => "🟡"@,
        AdviceSeverity::Low => "🟢"@,
    }
}

pub open spec fn effort_label(e: EffortEstimate) -> Seq<char> {
    match e {
        EffortEstimate::Minutes => "⏱️ 几分钟"@,
        EffortEstimate::Hours => "⏳ 几小时"@,
        EffortEstimate::Days => "📅 几天"@,
        EffortEstimate::Weeks => "📆 几周"@,
    }
}

pub open spec fn impact_icon(i: ImpactLevel) -> Seq<char> {
    match i {
        ImpactLevel::Transformational => "🚀"@,
        ImpactLevel::High => "⭐"@,
        ImpactLevel::Medium => "📈"@,
        ImpactLevel::Low => "📉"@,
    }
}

pub open spec fn file_bullets(fs: Seq<Seq<char>>) -> Seq<char>
    decreases fs.len(),
{
    if fs.len() == 0 { Seq::empty() } else { file_bullets(fs.drop_last()) + "      • "@ + fs.last() + "\n"@ }
}

/// The lines of one advice: at most five affected files are listed.
pub open spec fn advice_text(a: Advice) -> Seq<char> {
    let fs = strings(a.affected_files@);
    sev_icon(a.severity) + " "@ + a.title@ + " - "@ + impact_icon(a.impact) + "\n"@ + "   "@ + a.description@ + "\n"@
        + "   💡 "@ + a.suggestion@ + "\n"@ + "   "@ + effort_label(a.effort) + " · "@ + impact_icon(a.impact) + "\n"@
        + (if fs.len() == 0 {
            Seq::empty()
        } else {
            "   📎 影响文件:\n"@ + file_bullets(fs.take(if fs.len() < 5 { fs.len() as int } else { 5 }))
                + if fs.len() > 5 { "      • ... 及其他 "@ + decimal((fs.len() - 5) as nat) + " 个文件\n"@ } else { Seq::empty() }
        }) + "\n"@
}

pub open spec fn advices_text(a: Seq<Advice>) -> Seq<char>
    decreases a.len(),
{
    if a.len() == 0 { Seq::empty() } else { advices_text(a.drop_last()) + advice_text(a.last()) }
}

pub open spec fn numbered(xs: Seq<Seq<char>>) -> Seq<char>
    decreases xs.len(),
{
    if xs.len() == 0 { Seq::empty() } else { numbered(xs.drop_last()) + "  "@ + decimal(xs.len()) + ". "@ + xs.last() + "\n"@ }
}

/// The text of an advice result.
pub open spec fn advice_result_text(r: AdviceResult) -> Seq<char> {
    let s = r.summary;
    let acts = strings(s.recommended_actions@);
    "\n💡 架构改进建议\n"@ + "════════════════════════════════════════════════════════════════\n\n"@
        + "总建议数: "@ + decimal(s.total_issues as nat) + "\n"@
        + "🔴 Critical: "@ + decimal(s.critical_count as nat) + "\n"@
        + "🟠 High: "@ + decimal(s.high_count as nat) + "\n"@
        + "🟡 Medium: "@ + decimal(s.medium_count as nat) + "\n"@
        + "🟢 Low: "@ + decimal(s.low_count as nat) + "\n"@
        + (if acts.len() == 0 { Seq::empty() } else { "\n🎯 推荐行动:\n"@ + numbered(acts) })
        + (if r.advices@.len() == 0 {
            Seq::empty()
        } else {
            "\n📋 详细建议:\n"@ + "──────────────────────────────────────────────────────────────\n\n"@ + advices_text(r.advices@)
        }) + "💡 提示: 根据建议的优先级和工作量，制定合理的重构计划。\n"@
}

fn push_files(o: &mut String, files: &Vec<String>)
    ensures
        ({
            let fs = strings(files@);
            final(o)@ == old(o)@ + if fs.len() == 0 {
                Seq::empty()
            } else {
                "   📎 影响文件:\n"@ + file_bullets(fs.take(if fs.len() < 5 { fs.len() as int } else { 5 }))
                    + if fs.len() > 5 { "      • ... 及其他 "@ + decimal((fs.len() - 5) as nat) + " 个文件\n"@ } else { Seq::empty() }
            }
        }),
{
    let ghost start = o@;
    let ghost fs = strings(files@);
    if files.len() > 0 {
        push_str(o, "   📎 影响文件:\n");
        let shown: usize = if files.len() < 5 { files.len() } else { 5 };
        let ghost m = o@;
        for i in 0..shown
            invariant
                shown <= files@.len(),
                fs == strings(files@),
                o@ == m + file_bullets(fs.take(i as int)),
        {
            push_str(o, "      • ");
            push_str(o, files[i].as_str());
            push_str(o, "\n");
            assert(fs.take(i + 1).drop_last() =~= fs.take(i as int));
            assert(o@ =~= m + file_bullets(fs.take(i + 1)));
        }
        let ghost m2 = o@;
        if files.len() > 5 {
            push_str(o, "      • ... 及其他 ");
            push_decimal(o, files.len() - 5);
            push_str(o, " 个文件\n");
        }
        proof {
            reveal_strlit("");
        }
        assert(o@ =~= start + ("   📎 影响文件:\n"@ + file_bullets(fs.take(if fs.len() < 5 { fs.len() as int } else { 5 }))
            + if fs.len() > 5 { "      • ... 及其他 "@ + decimal((fs.len() - 5) as nat) + " 个文件\n"@ } else { Seq::empty() }));
    } else {
        assert(o@ =~= start + Seq::<char>::empty());
    }
}

fn sev_str(s: AdviceSeverity) -> (r: &'static str)
    ensures
        r@ == sev_icon(s),
{
    match s {
        AdviceSeverity::Critical => "🔴",
        AdviceSeverity::High => "🟠",
        AdviceSeverity::Medium => "🟡",
        AdviceSeverity::Low => "🟢",
    }
}

fn effort_str(e: EffortEstimate) -> (r: &'static str)
    ensures
        r@ == effort_label(e),
{
    match e {
        EffortEstimate::Minutes => "⏱️ 几分钟",
        EffortEstimate::Hours => "⏳ 几小时",
        EffortEstimate::Days => "📅 几天",
        EffortEstimate::Weeks => "📆 几周",
    }
}

fn impact_str(i: ImpactLevel) -> (r: &'static str)
    ensures
        r@ == impact_icon(i),
{
    match i {
        ImpactLevel::Transformational => "🚀",
        ImpactLevel::High => "⭐",
        ImpactLevel::Medium => "📈",
        ImpactLevel::Low => "📉",
    }
}

fn push_one_advice(o: &mut String, a: &Advice)
    ensures
        final(o)@ == old(o)@ + advice_text(*a),
{
    let ghost start = o@;
    let icon = impact_str(a.impact);
    push_str(o, sev_str(a.severity));
    push_str(o, " ");
    push_str(o, a.title.as_str());
    push_str(o, " - ");
    push_str(o, icon);
    push_str(o, "\n");
    push_str(o, "   ");
    push_str(o, a.description.as_str());
    push_str(o, "\n");
    push_str(o, "   💡 ");
    push_str(o, a.suggestion.as_str());
    push_str(o, "\n");
    push_str(o, "   ");
    push_str(o, effort_str(a.effort));
    push_str(o, " · ");
    push_str(o, icon);
    push_str(o, "\n");
    push_files(o, &a.affected_files);
    push_str(o, "\n");
    assert(o@ =~= start + advice_text(*a));
}

impl ArchitectureAdvisor {
    /// The text of an advice result.
    pub fn format_result(&self, result: &AdviceResult) -> (r: String)
        ensures
            r@ == advice_result_text(*result),
    {
        let s = &result.summary;
        let mut o = owned("\n💡 架构改进建议\n");
        push_str(&mut o, "════════════════════════════════════════════════════════════════\n\n");
        push_str(&mut o, "总建议数: ");
        push_decimal(&mut o, s.total_issues);
        push_str(&mut o, "\n");
        push_str(&mut o, "🔴 Critical: ");
        push_decimal(&mut o, s.critical_count);
        push_str(&mut o, "\n");
        push_str(&mut o, "🟠 High: ");
        push_decimal(&mut o, s.high_count);
        push_str(&mut o, "\n");
        push_str(&mut o, "🟡 Medium: ");
        push_decimal(&mut o, s.medium_count);
        push_str(&mut o, "\n");
        push_str(&mut o, "🟢 Low: ");
        push_decimal(&mut o, s.low_count);
        push_str(&mut o, "\n");
        let ghost h = o@;
        let ghost acts = strings(s.recommended_actions@);
        if s.recommended_actions.len() > 0 {
            push_str(&mut o, "\n🎯 推荐行动:\n");
            let ghost m = o@;
            for i in 0..s.recommended_actions.len()
                invariant
                    acts == strings(s.recommended_actions@),
                    o@ == m + numbered(acts.take(i as int)),
            {
                push_str(&mut o, "  ");
                push_decimal(&mut o, i + 1);
                push_str(&mut o, ". ");
                push_str(&mut o, s.recommended_actions[i].as_str());
                push_str(&mut o, "\n");
                assert(acts.take(i + 1).drop_last() =~= acts.take(i as int));
                assert(o@ =~= m + numbered(acts.take(i + 1)));
            }
            assert(acts.take(acts.len() as int) =~= acts);
        }
        let ghost h2 = o@;
        let adv = &result.advices;
        if adv.len() > 0 {
            push_str(&mut o, "\n📋 详细建议:\n");
            push_str(&mut o, "──────────────────────────────────────────────────────────────\n\n");
            let ghost m = o@;
            for i in 0..adv.len()
                invariant
                    o@ == m + advices_text(adv@.take(i as int)),
            {
                push_one_advice(&mut o, &adv[i]);
                assert(adv@.take(i + 1).drop_last() =~= adv@.take(i as int));
            }
            assert(adv@.take(adv@.len() as int) =~= adv@);
        }
        push_str(&mut o, "💡 提示: 根据建议的优先级和工作量，制定合理的重构计划。\n");
        assert(o@ =~= advice_result_text(*result));
        o
    }
}

impl Default for ArchitectureAdvisor {
    fn default() -> (r: Self) {
        ArchitectureAdvisor
    }
}

} // verus!
