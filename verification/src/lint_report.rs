//! The text of a lint run.
use vstd::prelude::*;
use crate::text::{owned, push_str, push_decimal, decimal, repeat, push_repeat};
use crate::arch_linter::{ArchitectureLinter, LintResult, LintSeverity, LintViolation, tally_view};

verus! {

pub open spec fn severity_icon(s: LintSeverity) -> Seq<char> {
    match s {
        LintSeverity::Error => "❌"@,
        LintSeverity::Warning => "⚠️ "@,
        LintSeverity::Info => "ℹ️ "@,
    }
}

fn icon_str(s: LintSeverity) -> (r: &'static str)
    ensures
        r@ == severity_icon(s),
{
    match s {
        LintSeverity::Error => "❌",
        LintSeverity::Warning => "⚠️ ",
        LintSeverity::Info => "ℹ️ ",
    }
}

/// The lines of one finding.
pub open spec fn violation_text(v: LintViolation) -> Seq<char> {
    "  "@ + severity_icon(v.severity) + " ["@ + v.rule_id@ + "] "@ + v.file@ + ":"@ + decimal(v.line as nat) + " - "@
        + v.message@ + "\n"@ + match v.suggestion {
        Some(s) => "     💡 建议: "@ + s@ + "\n"@,
        None => Seq::empty(),
    }
}

/// The lines of the findings of severity `s`, in their order.
pub open spec fn severity_lines(vs: Seq<LintViolation>, s: LintSeverity) -> Seq<char>
    decreases vs.len(),
{
    if vs.len() == 0 {
        Seq::empty()
    } else {
        severity_lines(vs.drop_last(), s) + if vs.last().severity == s { violation_text(vs.last()) } else { Seq::empty() }
    }
}

pub open spec fn category_lines(t: Seq<(Seq<char>, nat)>) -> Seq<char>
    decreases t.len(),
{
    if t.len() == 0 { Seq::empty() } else { category_lines(t.drop_last()) + "  "@ + t.last().0 + ": "@ + decimal(t.last().1) + " 个\n"@ }
}

pub open spec fn head_text(r: LintResult) -> Seq<char> {
    "\n🏗️  架构 Lint 结果\n"@ + repeat("─"@, 50) + "\n"@
        + "  扫描文件: "@ + decimal(r.total_files as nat) + " 个\n"@
        + "  违规总数: "@ + decimal(r.total_violations as nat) + " 个 (❌ "@ + decimal(r.error_count as nat) + " | ⚠️  "@
        + decimal(r.warning_count as nat) + " | ℹ️  "@ + decimal(r.info_count as nat) + ")\n\n"@
}

pub open spec fn category_section(r: LintResult) -> Seq<char> {
    if r.by_category@.len() == 0 { Seq::empty() } else { "📊 按分类统计:\n"@ + category_lines(tally_view(r.by_category@)) + "\n"@ }
}

pub open spec fn detail_section(vs: Seq<LintViolation>) -> Seq<char> {
    if vs.len() == 0 {
        "✅ 没有发现问题！架构很健康。\n"@
    } else {
        "🔍 违规详情:\n\n"@ + severity_lines(vs, LintSeverity::Error) + severity_lines(vs, LintSeverity::Warning)
            + severity_lines(vs, LintSeverity::Info)
    }
}

pub open spec fn foot_text(r: LintResult) -> Seq<char> {
    "\n"@ + repeat("─"@, 50) + "\n"@
        + if r.error_count > 0 {
            "❌ 检查失败：存在 "@ + decimal(r.error_count as nat) + " 个错误\n"@
        } else if r.warning_count > 0 {
            "⚠️  检查通过，但有 "@ + decimal(r.warning_count as nat) + " 个警告\n"@
        } else {
            "✅ 检查通过！\n"@
        }
}

/// The text of a lint run: findings errors first, then warnings, then
/// notes, each in the order found.
pub open spec fn lint_text(r: LintResult) -> Seq<char> {
    head_text(r) + category_section(r) + detail_section(r.violations@) + foot_text(r)
}

fn push_head(o: &mut String, result: &LintResult)
    ensures
        final(o)@ == old(o)@ + head_text(*result),
{
    let ghost start = o@;
    push_str(o, "\n🏗️  架构 Lint 结果\n");
    push_repeat(o, "─", 50);
    push_str(o, "\n");
    push_str(o, "  扫描文件: ");
    push_decimal(o, result.total_files);
    push_str(o, " 个\n");
    push_str(o, "  违规总数: ");
    push_decimal(o, result.total_violations);
    push_str(o, " 个 (❌ ");
    push_decimal(o, result.error_count);
    push_str(o, " | ⚠️  ");
    push_decimal(o, result.warning_count);
    push_str(o, " | ℹ️  ");
    push_decimal(o, result.info_count);
    push_str(o, ")\n\n");
    assert(o@ =~= start + head_text(*result));
}

fn push_foot(o: &mut String, result: &LintResult)
    ensures
        final(o)@ == old(o)@ + foot_text(*result),
{
    let ghost start = o@;
    push_str(o, "\n");
    push_repeat(o, "─", 50);
    push_str(o, "\n");
    if result.error_count > 0 {
        push_str(o, "❌ 检查失败：存在 ");
        push_decimal(o, result.error_count);
        push_str(o, " 个错误\n");
    } else if result.warning_count > 0 {
        push_str(o, "⚠️  检查通过，但有 ");
        push_decimal(o, result.warning_count);
        push_str(o, " 个警告\n");
    } else {
        push_str(o, "✅ 检查通过！\n");
    }
    assert(o@ =~= start + foot_text(*result));
}

fn push_details(o: &mut String, vs: &Vec<LintViolation>)
    ensures
        final(o)@ == old(o)@ + detail_section(vs@),
{
    let ghost start = o@;
    if vs.len() == 0 {
        push_str(o, "✅ 没有发现问题！架构很健康。\n");
    } else {
        push_str(o, "🔍 违规详情:\n\n");
        push_severity(o, vs, LintSeverity::Error);
        push_severity(o, vs, LintSeverity::Warning);
        push_severity(o, vs, LintSeverity::Info);
    }
    assert(o@ =~= start + detail_section(vs@));
}

fn push_violation(o: &mut String, v: &LintViolation)
    ensures
        final(o)@ == old(o)@ + violation_text(*v),
{
    let ghost start = o@;
    push_str(o, "  ");
    push_str(o, icon_str(v.severity));
    push_str(o, " [");
    push_str(o, v.rule_id.as_str());
    push_str(o, "] ");
    push_str(o, v.file.as_str());
    push_str(o, ":");
    push_decimal(o, v.line);
    push_str(o, " - ");
    push_str(o, v.message.as_str());
    push_str(o, "\n");
    let ghost mid = o@;
    match &v.suggestion {
        Some(s) => {
            push_str(o, "     💡 建议: ");
            push_str(o, s.as_str());
            push_str(o, "\n");
        },
        None => {},
    }
    assert(o@ =~= start + violation_text(*v));
}

fn push_severity(o: &mut String, vs: &Vec<LintViolation>, s: LintSeverity)
    ensures
        final(o)@ == old(o)@ + severity_lines(vs@, s),
{
    let ghost start = o@;
    for i in 0..vs.len()
        invariant
            o@ == start + severity_lines(vs@.take(i as int), s),
    {
        assert(vs@.take(i + 1).drop_last() =~= vs@.take(i as int));
        let ghost before = o@;
        if vs[i].severity == s {
            push_violation(o, &vs[i]);
        }
        assert(o@ =~= start + severity_lines(vs@.take(i + 1), s));
    }
    assert(vs@.take(vs@.len() as int) =~= vs@);
}

fn push_categories(o: &mut String, t: &Vec<(String, usize)>)
    ensures
        final(o)@ == old(o)@ + category_lines(tally_view(t@)),
{
    let ghost start = o@;
    let ghost tv = tally_view(t@);
    for i in 0..t.len()
        invariant
            tv == tally_view(t@),
            o@ == start + category_lines(tv.take(i as int)),
    {
        push_str(o, "  ");
        push_str(o, t[i].0.as_str());
        push_str(o, ": ");
        push_decimal(o, t[i].1);
        push_str(o, " 个\n");
        assert(tv.take(i + 1).drop_last() =~= tv.take(i as int));
        assert(o@ =~= start + category_lines(tv.take(i + 1)));
    }
    assert(tv.take(tv.len() as int) =~= tv);
}

impl ArchitectureLinter {
    /// The text of a lint run.
    pub fn format_result(&self, result: &LintResult) -> (r: String)
        ensures
            r@ == lint_text(*result),
    {
        let mut o = String::new();
        push_head(&mut o, result);
        let ghost a = o@;
        if result.by_category.len() > 0 {
            push_str(&mut o, "📊 按分类统计:\n");
            push_categories(&mut o, &result.by_category);
            push_str(&mut o, "\n");
        }
        assert(o@ =~= a + category_section(*result));
        push_details(&mut o, &result.violations);
        push_foot(&mut o, result);
        assert(o@ =~= lint_text(*result));
        o
    }
}

} // verus!
