//! Autonomous decisions: a rule-based answer to a question, with a
//! confidence and a severity, and a report over recorded decisions.
use vstd::prelude::*;
use crate::text::{owned, push_str, push_decimal, decimal, to_lowercase, unicode_lowercase, contains, str_contains,
    lex_lt, lex_less, lemma_lex_lt_asym, all_simple_case, ascii_lower};
use crate::clock::{now_rfc3339, new_uuid_simple};

verus! {

broadcast use vstd::seq_lib::group_to_multiset_ensures;

/// How much a decision matters.
#[derive(Debug, Clone, Copy, PartialEq, Eq, Structural)]
pub enum DecisionSeverity {
    Low,
    Medium,
    High,
    Critical,
}

/// How sure the engine is of a decision.
#[derive(Debug, Clone, Copy, PartialEq, Eq, Structural)]
pub enum DecisionConfidence {
    Low,
    Medium,
    High,
}

pub open spec fn severity_name(s: DecisionSeverity) -> Seq<char> {
    match s {
        DecisionSeverity::Low => "Low"@,
        DecisionSeverity::Medium => "Medium"@,
        DecisionSeverity::High => "High"@,
        DecisionSeverity::Critical => "Critical"@,
    }
}

pub open spec fn confidence_name(c: DecisionConfidence) -> Seq<char> {
    match c {
        DecisionConfidence::Low => "Low"@,
        DecisionConfidence::Medium => "Medium"@,
        DecisionConfidence::High => "High"@,
    }
}

fn severity_str(s: DecisionSeverity) -> (r: &'static str)
    ensures
        r@ == severity_name(s),
{
    match s {
        DecisionSeverity::Low => "Low",
        DecisionSeverity::Medium => "Medium",
        DecisionSeverity::High => "High",
        DecisionSeverity::Critical => "Critical",
    }
}

fn confidence_str(c: DecisionConfidence) -> (r: &'static str)
    ensures
        r@ == confidence_name(c),
{
    match c {
        DecisionConfidence::Low => "Low",
        DecisionConfidence::Medium => "Medium",
        DecisionConfidence::High => "High",
    }
}

/// A decision taken by the engine.
#[derive(Debug, Clone)]
pub struct AutoDecision {
    pub id: String,
    pub title: String,
    pub context: String,
    pub decision: String,
    pub rationale: String,
    pub alternatives: Vec<String>,
    pub severity: DecisionSeverity,
    pub confidence: DecisionConfidence,
    pub needs_human_review: bool,
    pub created_at: String,
    pub agent_id: String,
    pub related_adr: Option<String>,
}

/// A rule of the engine.
#[derive(Debug, Clone)]
pub struct DecisionRule {
    pub id: String,
    pub name: String,
    pub condition: String,
    pub action: String,
    pub severity: DecisionSeverity,
    pub enabled: bool,
}

/// A report over recorded decisions; the tallies list each level that
/// occurs, most confident and most severe first.
#[derive(Debug, Clone)]
pub struct DecisionEngineReport {
    pub total_decisions: usize,
    pub by_confidence: Vec<(String, usize)>,
    pub by_severity: Vec<(String, usize)>,
    pub pending_review: usize,
    pub decisions: Vec<AutoDecision>,
}

pub open spec fn rule_view(r: DecisionRule) -> (Seq<char>, Seq<char>, Seq<char>, Seq<char>, DecisionSeverity, bool) {
    (r.id@, r.name@, r.condition@, r.action@, r.severity, r.enabled)
}

/// The rules the engine starts with.
pub open spec fn default_rules_spec() -> Seq<(Seq<char>, Seq<char>, Seq<char>, Seq<char>, DecisionSeverity, bool)> {
    seq![
        ("rule-naming-convention"@, "命名规范"@, "命名违规"@, "自动修复命名，遵循项目约定"@, DecisionSeverity::Low, true),
        ("rule-layer-dependency"@, "分层依赖规则"@, "层依赖违规"@, "自动调整 import 路径，遵循四层架构"@, DecisionSeverity::High, true),
        ("rule-circular-dep"@, "循环依赖"@, "循环依赖检测"@, "标记为高优先级，需要人工审查"@, DecisionSeverity::Critical, true),
        ("rule-new-module"@, "新模块放置位置"@, "创建新模块"@, "按四层架构放置到正确的层（Domain/Application/Adapters/Interfaces）"@, DecisionSeverity::Medium, true),
        ("rule-test-coverage"@, "测试覆盖率"@, "测试覆盖率下降"@, "自动补充单元测试，维持覆盖率"@, DecisionSeverity::Medium, true),
    ]
}

fn rule(id: &str, name: &str, condition: &str, action: &str, severity: DecisionSeverity) -> (r: DecisionRule)
    ensures
        rule_view(r) == (id@, name@, condition@, action@, severity, true),
{
    DecisionRule {
        id: owned(id),
        name: owned(name),
        condition: owned(condition),
        action: owned(action),
        severity,
        enabled: true,
    }
}

/// The answer to a question whose lowercased title is `t` and lowercased
/// context is `c`: (decision, rationale, confidence).
pub open spec fn decide(t: Seq<char>, c: Seq<char>) -> (Seq<char>, Seq<char>, DecisionConfidence) {
    if contains(t, "命名"@) || contains(c, "naming"@) {
        ("遵循项目命名约定：模块名小写蛇形，结构体大驼峰，trait 用 -able 后缀"@, "基于历史 ADR 和代码风格一致性"@, DecisionConfidence::High)
    } else if contains(t, "架构"@) || contains(c, "architecture"@) {
        ("遵循四层架构（Domain → Application → Adapters → Interfaces），依赖方向由外向内"@, "基于 Cell Architecture 核心原则"@, DecisionConfidence::High)
    } else if contains(t, "依赖"@) || contains(c, "dependency"@) {
        ("通过依赖倒置原则，使用 Port/Adapter 模式解耦"@, "基于整洁架构和依赖注入原则"@, DecisionConfidence::Medium)
    } else if contains(t, "测试"@) || contains(c, "test"@) {
        ("为新增代码补充单元测试，维持 70%+ 覆盖率"@, "基于质量门禁要求"@, DecisionConfidence::High)
    } else if contains(t, "数据库"@) || contains(c, "database"@) {
        ("使用 Repository 模式抽象数据访问，具体实现放在 Adapters 层"@, "基于持久化无关原则"@, DecisionConfidence::Medium)
    } else if contains(t, "性能"@) || contains(c, "performance"@) {
        ("先优化热点路径，使用并行处理，必要时引入缓存"@, "基于性能优化最佳实践"@, DecisionConfidence::Medium)
    } else if contains(t, "安全"@) || contains(c, "security"@) {
        ("标记为高优先级，需要人工审查确认"@, "安全相关决策必须人工确认"@, DecisionConfidence::Low)
    } else {
        ("建议参考历史 ADR 和现有代码风格，与团队确认后实施"@, "不确定领域，需要更多上下文"@, DecisionConfidence::Low)
    }
}

/// The severity of a question whose lowercased "title context" text is `x`.
pub open spec fn severity_of(x: Seq<char>) -> DecisionSeverity {
    if contains(x, "安全"@) || contains(x, "security"@) || contains(x, "循环依赖"@) {
        DecisionSeverity::Critical
    } else if contains(x, "架构"@) || contains(x, "architecture"@) || contains(x, "分层"@) {
        DecisionSeverity::High
    } else if contains(x, "性能"@) || contains(x, "数据库"@) || contains(x, "依赖"@) {
        DecisionSeverity::Medium
    } else {
        DecisionSeverity::Low
    }
}

/// The text speaks of security or of a dependency cycle.
pub open spec fn critical_text(x: Seq<char>) -> bool {
    contains(x, "security"@) || contains(x, "安全"@) || contains(x, "循环依赖"@)
}

/// A decision about security or a dependency cycle is critical, whatever
/// else the text says.
pub proof fn law_security_is_critical(x: Seq<char>)
    ensures
        critical_text(x) ==> severity_of(x) == DecisionSeverity::Critical,
        contains(x, "security"@) ==> severity_of(x) == DecisionSeverity::Critical,
{
}

/// The severity of a decision follows the gravest subject its text names:
/// architecture or layering is high, performance, databases or dependencies
/// medium, anything else low.
pub proof fn law_severity_levels(x: Seq<char>)
    ensures
        !critical_text(x) && (contains(x, "architecture"@) || contains(x, "架构"@) || contains(x, "分层"@))
            ==> severity_of(x) == DecisionSeverity::High,
        !critical_text(x) && !contains(x, "architecture"@) && !contains(x, "架构"@) && !contains(x, "分层"@)
            && (contains(x, "性能"@) || contains(x, "数据库"@) || contains(x, "依赖"@)) ==> severity_of(x) == DecisionSeverity::Medium,
        !critical_text(x) && !contains(x, "architecture"@) && !contains(x, "架构"@) && !contains(x, "分层"@)
            && !contains(x, "性能"@) && !contains(x, "数据库"@) && !contains(x, "依赖"@) ==> severity_of(x) == DecisionSeverity::Low,
{
}

/// The rationale that always calls for a person to confirm.
pub open spec fn review_rationale() -> Seq<char> {
    "复杂架构决策，需要人工确认"@
}

/// Decisions that are kept for a report.
pub open spec fn kept(ds: Seq<AutoDecision>, review_only: bool) -> Seq<AutoDecision>
    decreases ds.len(),
{
    if ds.len() == 0 {
        Seq::empty()
    } else {
        let rest = kept(ds.drop_last(), review_only);
        if !review_only || ds.last().needs_human_review { rest.push(ds.last()) } else { rest }
    }
}

pub open spec fn count_confidence(ds: Seq<AutoDecision>, c: DecisionConfidence) -> nat
    decreases ds.len(),
{
    if ds.len() == 0 {
        0
    } else {
        count_confidence(ds.drop_last(), c) + if ds.last().confidence == c { 1nat } else { 0nat }
    }
}

pub open spec fn count_severity(ds: Seq<AutoDecision>, s: DecisionSeverity) -> nat
    decreases ds.len(),
{
    if ds.len() == 0 {
        0
    } else {
        count_severity(ds.drop_last(), s) + if ds.last().severity == s { 1nat } else { 0nat }
    }
}

pub open spec fn count_review(ds: Seq<AutoDecision>) -> nat
    decreases ds.len(),
{
    if ds.len() == 0 {
        0
    } else {
        count_review(ds.drop_last()) + if ds.last().needs_human_review { 1nat } else { 0nat }
    }
}

/// (name, count) of each level that occurs, in the given order.
pub open spec fn confidence_tally(ds: Seq<AutoDecision>, ks: Seq<DecisionConfidence>) -> Seq<(Seq<char>, nat)>
    decreases ks.len(),
{
    if ks.len() == 0 {
        Seq::empty()
    } else {
        let rest = confidence_tally(ds, ks.drop_last());
        let c = count_confidence(ds, ks.last());
        if c > 0 { rest.push((confidence_name(ks.last()), c)) } else { rest }
    }
}

pub open spec fn severity_tally(ds: Seq<AutoDecision>, ks: Seq<DecisionSeverity>) -> Seq<(Seq<char>, nat)>
    decreases ks.len(),
{
    if ks.len() == 0 {
        Seq::empty()
    } else {
        let rest = severity_tally(ds, ks.drop_last());
        let c = count_severity(ds, ks.last());
        if c > 0 { rest.push((severity_name(ks.last()), c)) } else { rest }
    }
}

pub open spec fn confidence_order() -> Seq<DecisionConfidence> {
    seq![DecisionConfidence::High, DecisionConfidence::Medium, DecisionConfidence::Low]
}

pub open spec fn severity_order() -> Seq<DecisionSeverity> {
    seq![DecisionSeverity::Critical, DecisionSeverity::High, DecisionSeverity::Medium, DecisionSeverity::Low]
}

pub open spec fn tally_view(t: Seq<(String, usize)>) -> Seq<(Seq<char>, nat)> {
    t.map_values(|p: (String, usize)| (p.0@, p.1 as nat))
}

/// Step `i` of `ds` does not go up in creation time.
pub open spec fn newer_first_at(ds: Seq<AutoDecision>, i: int) -> bool {
    !lex_lt(ds[i].created_at@, ds[i + 1].created_at@)
}

/// Newest first, by the creation time stamps.
pub open spec fn newest_first(ds: Seq<AutoDecision>) -> bool {
    forall|i: int| 0 <= i < ds.len() - 1 ==> #[trigger] newer_first_at(ds, i)
}

/// Takes rule-based decisions and reports on them.
pub struct DecisionEngineService {
    rules: Vec<DecisionRule>,
}

impl DecisionEngineService {
    pub closed spec fn rules_view(&self) -> Seq<(Seq<char>, Seq<char>, Seq<char>, Seq<char>, DecisionSeverity, bool)> {
        self.rules@.map_values(|r: DecisionRule| rule_view(r))
    }

    /// An engine with the default rules.
    pub fn new() -> (r: Self)
        ensures
            r.rules_view() == default_rules_spec(),
    {
        DecisionEngineService { rules: Self::default_rules() }
    }

    fn default_rules() -> (r: Vec<DecisionRule>)
        ensures
            r@.map_values(|r: DecisionRule| rule_view(r)) == default_rules_spec(),
    {
        let mut v: Vec<DecisionRule> = Vec::new();
        v.push(rule("rule-naming-convention", "命名规范", "命名违规", "自动修复命名，遵循项目约定", DecisionSeverity::Low));
        v.push(rule("rule-layer-dependency", "分层依赖规则", "层依赖违规", "自动调整 import 路径，遵循四层架构", DecisionSeverity::High));
        v.push(rule("rule-circular-dep", "循环依赖", "循环依赖检测", "标记为高优先级，需要人工审查", DecisionSeverity::Critical));
        v.push(rule("rule-new-module", "新模块放置位置", "创建新模块", "按四层架构放置到正确的层（Domain/Application/Adapters/Interfaces）", DecisionSeverity::Medium));
        v.push(rule("rule-test-coverage", "测试覆盖率", "测试覆盖率下降", "自动补充单元测试，维持覆盖率", DecisionSeverity::Medium));
        assert(v@.map_values(|r: DecisionRule| rule_view(r)) =~= default_rules_spec());
        v
    }

    /// The rules of the engine.
    pub fn get_rules(&self) -> (r: &[DecisionRule])
        ensures
            r@.map_values(|r: DecisionRule| rule_view(r)) == self.rules_view(),
    {
        self.rules.as_slice()
    }

    fn analyze_and_decide(&self, title: &str, context: &str) -> (r: (String, String, DecisionConfidence))
        ensures
            (r.0@, r.1@, r.2) == decide(unicode_lowercase(title@), unicode_lowercase(context@)),
    {
        let t = to_lowercase(title);
        let c = to_lowercase(context);
        let t = t.as_str();
        let c = c.as_str();
        if str_contains(t, "命名") || str_contains(c, "naming") {
            (owned("遵循项目命名约定：模块名小写蛇形，结构体大驼峰，trait 用 -able 后缀"), owned("基于历史 ADR 和代码风格一致性"), DecisionConfidence::High)
        } else if str_contains(t, "架构") || str_contains(c, "architecture") {
            (owned("遵循四层架构（Domain → Application → Adapters → Interfaces），依赖方向由外向内"), owned("基于 Cell Architecture 核心原则"), DecisionConfidence::High)
        } else if str_contains(t, "依赖") || str_contains(c, "dependency") {
            (owned("通过依赖倒置原则，使用 Port/Adapter 模式解耦"), owned("基于整洁架构和依赖注入原则"), DecisionConfidence::Medium)
        } else if str_contains(t, "测试") || str_contains(c, "test") {
            (owned("为新增代码补充单元测试，维持 70%+ 覆盖率"), owned("基于质量门禁要求"), DecisionConfidence::High)
        } else if str_contains(t, "数据库") || str_contains(c, "database") {
            (owned("使用 Repository 模式抽象数据访问，具体实现放在 Adapters 层"), owned("基于持久化无关原则"), DecisionConfidence::Medium)
        } else if str_contains(t, "性能") || str_contains(c, "performance") {
            (owned("先优化热点路径，使用并行处理，必要时引入缓存"), owned("基于性能优化最佳实践"), DecisionConfidence::Medium)
        } else if str_contains(t, "安全") || str_contains(c, "security") {
            (owned("标记为高优先级，需要人工审查确认"), owned("安全相关决策必须人工确认"), DecisionConfidence::Low)
        } else {
            (owned("建议参考历史 ADR 和现有代码风格，与团队确认后实施"), owned("不确定领域，需要更多上下文"), DecisionConfidence::Low)
        }
    }

    fn assess_severity(title: &str, context: &str) -> (r: DecisionSeverity)
        ensures
            r == severity_of(unicode_lowercase(title@ + " "@ + context@)),
            all_simple_case(title@ + " "@ + context@)
                ==> r == severity_of((title@ + " "@ + context@).map_values(|c: char| ascii_lower(c))),
    {
        let mut joined = owned(title);
        push_str(&mut joined, " ");
        push_str(&mut joined, context);
        let x = to_lowercase(joined.as_str());
        let x = x.as_str();
        if str_contains(x, "安全") || str_contains(x, "security") || str_contains(x, "循环依赖") {
            DecisionSeverity::Critical
        } else if str_contains(x, "架构") || str_contains(x, "architecture") || str_contains(x, "分层") {
            DecisionSeverity::High
        } else if str_contains(x, "性能") || str_contains(x, "数据库") || str_contains(x, "依赖") {
            DecisionSeverity::Medium
        } else {
            DecisionSeverity::Low
        }
    }

    /// Decides on the question `title` in `context` for `agent_id`, with a
    /// fresh identifier and the current time.
    pub fn make_decision(&self, title: &str, context: &str, agent_id: &str) -> (r: AutoDecision)
        ensures
            ({
                let (d, why, conf) = decide(unicode_lowercase(title@), unicode_lowercase(context@));
                &&& r.title@ == title@
                &&& r.context@ == context@
                &&& r.decision@ == d
                &&& r.rationale@ == why
                &&& r.confidence == conf
                &&& r.needs_human_review == (conf == DecisionConfidence::Low || why == review_rationale())
                &&& r.severity == severity_of(unicode_lowercase(title@ + " "@ + context@))
                &&& critical_text(unicode_lowercase(title@ + " "@ + context@)) ==> r.severity == DecisionSeverity::Critical
                &&& all_simple_case(title@ + " "@ + context@)
                    && critical_text((title@ + " "@ + context@).map_values(|c: char| ascii_lower(c)))
                    ==> r.severity == DecisionSeverity::Critical
                &&& r.agent_id@ == agent_id@
                &&& r.alternatives@.len() == 0
                &&& r.related_adr is None
                &&& r.id@.take(4) == "dec-"@
            }),
    {
        let (decision, rationale, confidence) = self.analyze_and_decide(title, context);
        let needs_review = confidence == DecisionConfidence::Low || crate::text::str_eq(rationale.as_str(), "复杂架构决策，需要人工确认");
        let mut id = owned("dec-");
        let u = new_uuid_simple();
        push_str(&mut id, u.as_str());
        proof {
            reveal_strlit("dec-");
        }
        assert(id@.take(4) =~= "dec-"@);
        AutoDecision {
            id,
            title: owned(title),
            context: owned(context),
            decision,
            rationale,
            alternatives: Vec::new(),
            severity: Self::assess_severity(title, context),
            confidence,
            needs_human_review: needs_review,
            created_at: now_rfc3339(),
            agent_id: owned(agent_id),
            related_adr: None,
        }
    }

    /// The report over `decisions` (those needing review only, if asked),
    /// newest first.
    pub fn list_decisions(&self, decisions: Vec<AutoDecision>, needs_review_only: bool) -> (r: DecisionEngineReport)
        ensures
            ({
                let k = kept(decisions@, needs_review_only);
                &&& r.decisions@.to_multiset() == k.to_multiset()
                &&& newest_first(r.decisions@)
                &&& r.total_decisions == k.len()
                &&& r.pending_review == count_review(k)
                &&& tally_view(r.by_confidence@) == confidence_tally(k, confidence_order())
                &&& tally_view(r.by_severity@) == severity_tally(k, severity_order())
            }),
    {
        let ghost input = decisions@;
        let mut rest = decisions;
        let mut chosen: Vec<AutoDecision> = Vec::new();
        let n = rest.len();
        let mut i: usize = 0;
        while i < n
            invariant
                n == input.len(),
                i <= n,
                rest@ == input.skip(i as int),
                chosen@ == kept(input.take(i as int), needs_review_only),
            decreases n - i,
        {
            let d = rest.remove(0);
            assert(input.take(i + 1).drop_last() =~= input.take(i as int));
            assert(d == input[i as int]);
            assert(input.skip(i + 1) =~= input.skip(i as int).remove(0));
            if !needs_review_only || d.needs_human_review {
                chosen.push(d);
            }
            i = i + 1;
        }
        assert(input.take(n as int) =~= input);
        let ghost k = chosen@;
        let by_confidence = Self::confidence_tallies(&chosen);
        let by_severity = Self::severity_tallies(&chosen);
        let pending = Self::pending(&chosen);
        let total = chosen.len();
        let sorted = Self::sort_newest_first(chosen);
        DecisionEngineReport {
            total_decisions: total,
            by_confidence,
            by_severity,
            pending_review: pending,
            decisions: sorted,
        }
    }

    fn count_conf(ds: &Vec<AutoDecision>, c: DecisionConfidence) -> (r: usize)
        ensures
            r as nat == count_confidence(ds@, c),
    {
        let mut n: usize = 0;
        for i in 0..ds.len()
            invariant
                n as nat == count_confidence(ds@.take(i as int), c),
                n <= i,
        {
            assert(ds@.take(i + 1).drop_last() =~= ds@.take(i as int));
            if ds[i].confidence == c {
                n = n + 1;
            }
        }
        assert(ds@.take(ds@.len() as int) =~= ds@);
        n
    }

    fn count_sev(ds: &Vec<AutoDecision>, s: DecisionSeverity) -> (r: usize)
        ensures
            r as nat == count_severity(ds@, s),
    {
        let mut n: usize = 0;
        for i in 0..ds.len()
            invariant
                n as nat == count_severity(ds@.take(i as int), s),
                n <= i,
        {
            assert(ds@.take(i + 1).drop_last() =~= ds@.take(i as int));
            if ds[i].severity == s {
                n = n + 1;
            }
        }
        assert(ds@.take(ds@.len() as int) =~= ds@);
        n
    }

    fn pending(ds: &Vec<AutoDecision>) -> (r: usize)
        ensures
            r as nat == count_review(ds@),
    {
        let mut n: usize = 0;
        for i in 0..ds.len()
            invariant
                n as nat == count_review(ds@.take(i as int)),
                n <= i,
        {
            assert(ds@.take(i + 1).drop_last() =~= ds@.take(i as int));
            if ds[i].needs_human_review {
                n = n + 1;
            }
        }
        assert(ds@.take(ds@.len() as int) =~= ds@);
        n
    }

    fn confidence_tallies(ds: &Vec<AutoDecision>) -> (r: Vec<(String, usize)>)
        ensures
            tally_view(r@) == confidence_tally(ds@, confidence_order()),
    {
        let ks = [DecisionConfidence::High, DecisionConfidence::Medium, DecisionConfidence::Low];
        let mut r: Vec<(String, usize)> = Vec::new();
        for i in 0..3
            invariant
                ks@ == confidence_order(),
                tally_view(r@) == confidence_tally(ds@, ks@.take(i as int)),
        {
            assert(ks@.take(i + 1).drop_last() =~= ks@.take(i as int));
            let c = Self::count_conf(ds, ks[i]);
            if c > 0 {
                let ghost before = r@;
                r.push((owned(confidence_str(ks[i])), c));
                assert(tally_view(r@) =~= tally_view(before).push((confidence_name(ks@[i as int]), c as nat)));
            }
        }
        assert(ks@.take(3) =~= ks@);
        r
    }

    fn severity_tallies(ds: &Vec<AutoDecision>) -> (r: Vec<(String, usize)>)
        ensures
            tally_view(r@) == severity_tally(ds@, severity_order()),
    {
        let ks = [DecisionSeverity::Critical, DecisionSeverity::High, DecisionSeverity::Medium, DecisionSeverity::Low];
        let mut r: Vec<(String, usize)> = Vec::new();
        for i in 0..4
            invariant
                ks@ == severity_order(),
                tally_view(r@) == severity_tally(ds@, ks@.take(i as int)),
        {
            assert(ks@.take(i + 1).drop_last() =~= ks@.take(i as int));
            let c = Self::count_sev(ds, ks[i]);
            if c > 0 {
                let ghost before = r@;
                r.push((owned(severity_str(ks[i])), c));
                assert(tally_view(r@) =~= tally_view(before).push((severity_name(ks@[i as int]), c as nat)));
            }
        }
        assert(ks@.take(4) =~= ks@);
        r
    }

    /// A stable sort, newest first.
    fn sort_newest_first(ds: Vec<AutoDecision>) -> (r: Vec<AutoDecision>)
        ensures
            r@.to_multiset() == ds@.to_multiset(),
            newest_first(r@),
    {
        let ghost input = ds@;
        let mut rest = ds;
        let mut out: Vec<AutoDecision> = Vec::new();
        let n = rest.len();
        let mut i: usize = 0;
        while i < n
            invariant
                n == input.len(),
                i <= n,
                rest@ == input.skip(i as int),
                out@.to_multiset() == input.take(i as int).to_multiset(),
                newest_first(out@),
            decreases n - i,
        {
            let d = rest.remove(0);
            assert(d == input[i as int]);
            assert(input.skip(i + 1) =~= input.skip(i as int).remove(0));
            assert(input.take(i + 1) =~= input.take(i as int).push(d));
            let mut p: usize = 0;
            while p < out.len()
                invariant
                    p <= out@.len(),
                    forall|j: int| 0 <= j < p ==> !lex_lt(#[trigger] out@[j].created_at@, d.created_at@),
                ensures
                    p <= out@.len(),
                    forall|j: int| 0 <= j < p ==> !lex_lt(#[trigger] out@[j].created_at@, d.created_at@),
                    p < out@.len() ==> lex_lt(out@[p as int].created_at@, d.created_at@),
                decreases out@.len() - p,
            {
                if lex_less(out[p].created_at.as_str(), d.created_at.as_str()) {
                    break;
                }
                p = p + 1;
            }
            let ghost before = out@;
            proof {
                if p < before.len() {
                    lemma_lex_lt_asym(before[p as int].created_at@, d.created_at@);
                }
            }
            out.insert(p, d);
            proof {
                assert(out@ == before.insert(p as int, d));
                assert forall|j: int| 0 <= j < out@.len() - 1 implies #[trigger] newer_first_at(out@, j) by {
                    if j < p as int - 1 {
                        assert(newer_first_at(before, j));
                    } else if j == p as int - 1 {
                        assert(!lex_lt(before[j].created_at@, d.created_at@));
                    } else if j == p as int {
                        assert(lex_lt(before[p as int].created_at@, d.created_at@));
                    } else {
                        assert(newer_first_at(before, j - 1));
                    }
                }
            }
            i = i + 1;
        }
        assert(input.take(n as int) =~= input);
        out
    }
}

pub open spec fn confidence_icon(c: DecisionConfidence) -> Seq<char> {
    match c {
        DecisionConfidence::High => "✅"@,
        DecisionConfidence::Medium => "🤔"@,
        DecisionConfidence::Low => "⚠️"@,
    }
}

pub open spec fn severity_icon(s: DecisionSeverity) -> Seq<char> {
    match s {
        DecisionSeverity::Low => "🟢"@,
        DecisionSeverity::Medium => "🟡"@,
        DecisionSeverity::High => "🟠"@,
        DecisionSeverity::Critical => "🔴"@,
    }
}

/// The text of one decision.
pub open spec fn decision_text(d: AutoDecision) -> Seq<char> {
    "\n"@ + severity_icon(d.severity) + " 决策: "@ + d.title@ + "\n\n"@
        + "  ID: "@ + d.id@ + "\n"@
        + "  置信度: "@ + confidence_icon(d.confidence) + " "@ + confidence_name(d.confidence) + "\n"@
        + "  严重程度: "@ + severity_name(d.severity) + "\n"@
        + "  需要人工审查: "@ + (if d.needs_human_review { "是 ⚠️"@ } else { "否"@ }) + "\n"@
        + "  决策: "@ + d.decision@ + "\n"@
        + "  理由: "@ + d.rationale@ + "\n"@
        + "  Agent: "@ + d.agent_id@ + "\n"@
        + "  时间: "@ + d.created_at@ + "\n"@
}

/// Lines "    level: count" of a tally.
pub open spec fn tally_lines(t: Seq<(Seq<char>, nat)>) -> Seq<char>
    decreases t.len(),
{
    if t.len() == 0 {
        Seq::empty()
    } else {
        tally_lines(t.drop_last()) + "    "@ + t.last().0 + ": "@ + decimal(t.last().1) + "\n"@
    }
}

/// Numbered lines of the first `n` decisions.
pub open spec fn recent_lines(ds: Seq<AutoDecision>, n: nat) -> Seq<char>
    decreases n,
{
    if n == 0 || n > ds.len() {
        Seq::empty()
    } else {
        let d = ds[n - 1];
        recent_lines(ds, (n - 1) as nat) + "  "@ + decimal(n) + ". ["@ + confidence_name(d.confidence) + "] "@ + d.title@
            + (if d.needs_human_review { " ⚠️"@ } else { Seq::empty() }) + "\n"@
    }
}

/// Appends the numbered line of one recent decision.
fn push_recent_line(o: &mut String, d: &AutoDecision, n: usize)
    ensures
        final(o)@ == old(o)@ + "  "@ + decimal(n as nat) + ". ["@ + confidence_name(d.confidence) + "] "@ + d.title@
            + (if d.needs_human_review { " ⚠️"@ } else { Seq::empty() }) + "\n"@,
{
    push_str(o, "  ");
    push_decimal(o, n);
    push_str(o, ". [");
    push_str(o, confidence_str(d.confidence));
    push_str(o, "] ");
    push_str(o, d.title.as_str());
    proof {
        reveal_strlit("");
    }
    push_str(o, if d.needs_human_review { " ⚠️" } else { "" });
    push_str(o, "\n");
}

/// The text of a report: totals, tallies and the ten newest decisions.
pub open spec fn report_text(r: DecisionEngineReport) -> Seq<char> {
    let shown = if r.decisions@.len() < 10 { r.decisions@.len() } else { 10 };
    "\n🤖 自主决策报告\n\n"@ + "  总决策数: "@ + decimal(r.total_decisions as nat) + "\n"@
        + "  待人工审查: "@ + decimal(r.pending_review as nat) + "\n"@
        + "\n  按置信度:\n"@ + tally_lines(tally_view(r.by_confidence@))
        + "\n  按严重程度:\n"@ + tally_lines(tally_view(r.by_severity@))
        + if r.decisions@.len() == 0 { Seq::empty() } else { "\n  最近决策:\n\n"@ + recent_lines(r.decisions@, shown as nat) }
}

fn push_tally(out: &mut String, t: &Vec<(String, usize)>)
    ensures
        final(out)@ == old(out)@ + tally_lines(tally_view(t@)),
{
    let ghost start = out@;
    for i in 0..t.len()
        invariant
            out@ == start + tally_lines(tally_view(t@).take(i as int)),
    {
        assert(tally_view(t@).take(i + 1).drop_last() =~= tally_view(t@).take(i as int));
        push_str(out, "    ");
        push_str(out, t[i].0.as_str());
        push_str(out, ": ");
        push_decimal(out, t[i].1);
        push_str(out, "\n");
        assert(out@ =~= start + tally_lines(tally_view(t@).take(i + 1)));
    }
    assert(tally_view(t@).take(t@.len() as int) =~= tally_view(t@));
}

impl DecisionEngineService {
    /// The text of one decision.
    pub fn format_decision(&self, decision: &AutoDecision) -> (r: String)
        ensures
            r@ == decision_text(*decision),
    {
        let d = decision;
        let mut o = owned("\n");
        push_str(&mut o, match d.severity {
            DecisionSeverity::Low => "🟢",
            DecisionSeverity::Medium => "🟡",
            DecisionSeverity::High => "🟠",
            DecisionSeverity::Critical => "🔴",
        });
        push_str(&mut o, " 决策: ");
        push_str(&mut o, d.title.as_str());
        push_str(&mut o, "\n\n");
        push_str(&mut o, "  ID: ");
        push_str(&mut o, d.id.as_str());
        push_str(&mut o, "\n");
        push_str(&mut o, "  置信度: ");
        push_str(&mut o, match d.confidence {
            DecisionConfidence::High => "✅",
            DecisionConfidence::Medium => "🤔",
            DecisionConfidence::Low => "⚠️",
        });
        push_str(&mut o, " ");
        push_str(&mut o, confidence_str(d.confidence));
        push_str(&mut o, "\n");
        push_str(&mut o, "  严重程度: ");
        push_str(&mut o, severity_str(d.severity));
        push_str(&mut o, "\n");
        push_str(&mut o, "  需要人工审查: ");
        push_str(&mut o, if d.needs_human_review { "是 ⚠️" } else { "否" });
        push_str(&mut o, "\n");
        push_str(&mut o, "  决策: ");
        push_str(&mut o, d.decision.as_str());
        push_str(&mut o, "\n");
        push_str(&mut o, "  理由: ");
        push_str(&mut o, d.rationale.as_str());
        push_str(&mut o, "\n");
        push_str(&mut o, "  Agent: ");
        push_str(&mut o, d.agent_id.as_str());
        push_str(&mut o, "\n");
        push_str(&mut o, "  时间: ");
        push_str(&mut o, d.created_at.as_str());
        push_str(&mut o, "\n");
        assert(o@ =~= decision_text(*decision));
        o
    }

    /// The text of a report.
    #[verifier::rlimit(40)]
    pub fn format_report(&self, report: &DecisionEngineReport) -> (r: String)
        ensures
            r@ == report_text(*report),
    {
        let mut o = owned("\n🤖 自主决策报告\n\n");
        push_str(&mut o, "  总决策数: ");
        push_decimal(&mut o, report.total_decisions);
        push_str(&mut o, "\n");
        push_str(&mut o, "  待人工审查: ");
        push_decimal(&mut o, report.pending_review);
        push_str(&mut o, "\n");
        push_str(&mut o, "\n  按置信度:\n");
        push_tally(&mut o, &report.by_confidence);
        push_str(&mut o, "\n  按严重程度:\n");
        push_tally(&mut o, &report.by_severity);
        let ghost head = o@;
        let ds = &report.decisions;
        if ds.len() > 0 {
            push_str(&mut o, "\n  最近决策:\n\n");
            let shown: usize = if ds.len() < 10 { ds.len() } else { 10 };
            let ghost mid = o@;
            for i in 0..shown
                invariant
                    shown <= ds@.len(),
                    shown <= 10,
                    o@ == mid + recent_lines(ds@, i as nat),
            {
                push_recent_line(&mut o, &ds[i], i + 1);
                assert(o@ =~= mid + recent_lines(ds@, (i + 1) as nat));
            }
        }
        assert(o@ =~= report_text(*report));
        o
    }
}

impl Default for DecisionEngineService {
    fn default() -> (r: Self)
        ensures
            r.rules_view() == default_rules_spec(),
    {
        DecisionEngineService::new()
    }
}

} // verus!
