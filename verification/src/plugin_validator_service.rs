//! Plugin validation reports: the audit summary drawn from validation
//! findings, and the texts of results and audits.
use vstd::prelude::*;
use crate::text::{owned, push_str, push_decimal, push_decimal_u64, decimal};

verus! {

/// How serious a finding is.
#[derive(Debug, Clone, Copy, PartialEq, Eq, Structural)]
pub enum ValidationSeverity {
    Critical,
    Error,
    Warning,
    Info,
}

/// One finding of a validation rule.
#[derive(Debug, Clone)]
pub struct ValidationFinding {
    pub rule_id: String,
    pub message: String,
    pub severity: ValidationSeverity,
    pub field: Option<String>,
    pub suggestion: Option<String>,
}

/// The validation of one plugin; it passes when no finding is critical or
/// an error.
#[derive(Debug, Clone)]
pub struct ValidationResult {
    pub plugin_id: String,
    pub plugin_name: String,
    pub findings: Vec<ValidationFinding>,
    pub duration_ms: u64,
}

/// The validation of several plugins.
#[derive(Debug, Clone)]
pub struct ValidationReport {
    pub total_plugins: usize,
    pub passed: usize,
    pub failed: usize,
    pub results: Vec<ValidationResult>,
}

/// The overall risk of an audit.
#[derive(Debug, Clone, Copy, PartialEq, Eq, Structural)]
pub enum RiskLevel {
    Low,
    Medium,
    High,
    Critical,
}

/// Counts and advice drawn from a report.
#[derive(Debug, Clone)]
pub struct AuditSummary {
    pub critical_count: usize,
    pub error_count: usize,
    pub warning_count: usize,
    pub info_count: usize,
    pub total_findings: usize,
    pub risk_level: RiskLevel,
    pub recommendations: Vec<String>,
}

/// An audit: the report and its summary.
#[derive(Debug, Clone)]
pub struct PluginAuditResult {
    pub report: ValidationReport,
    pub summary: AuditSummary,
}

pub open spec fn severity_label(s: ValidationSeverity) -> Seq<char> {
    match s {
        ValidationSeverity::Critical => "Critical"@,
        ValidationSeverity::Error => "Error"@,
        ValidationSeverity::Warning => "Warning"@,
        ValidationSeverity::Info => "Info"@,
    }
}

fn severity_str(s: ValidationSeverity) -> (r: &'static str)
    ensures
        r@ == severity_label(s),
{
    match s {
        ValidationSeverity::Critical => "Critical",
        ValidationSeverity::Error => "Error",
        ValidationSeverity::Warning => "Warning",
        ValidationSeverity::Info => "Info",
    }
}

pub open spec fn risk_label(r: RiskLevel) -> Seq<char> {
    match r {
        RiskLevel::Critical => "Critical"@,
        RiskLevel::High => "High"@,
        RiskLevel::Medium => "Medium"@,
        RiskLevel::Low => "Low"@,
    }
}

/// Findings of severity `s`.
pub open spec fn count_of(fs: Seq<ValidationFinding>, s: ValidationSeverity) -> nat
    decreases fs.len(),
{
    if fs.len() == 0 {
        0
    } else {
        count_of(fs.drop_last(), s) + if fs.last().severity == s { 1nat } else { 0nat }
    }
}

/// A plugin passes when it has no critical finding and no error.
pub open spec fn passes(r: ValidationResult) -> bool {
    count_of(r.findings@, ValidationSeverity::Critical) == 0 && count_of(r.findings@, ValidationSeverity::Error) == 0
}

/// Findings of severity `s` over the results.
pub open spec fn report_count(rs: Seq<ValidationResult>, s: ValidationSeverity) -> nat
    decreases rs.len(),
{
    if rs.len() == 0 { 0 } else { report_count(rs.drop_last(), s) + count_of(rs.last().findings@, s) }
}

pub open spec fn risk_of(critical: nat, error: nat) -> RiskLevel {
    if critical > 0 {
        RiskLevel::Critical
    } else if error >= 3 {
        RiskLevel::High
    } else if error > 0 {
        RiskLevel::Medium
    } else {
        RiskLevel::Low
    }
}

pub open spec fn recommendations(c: nat, e: nat, w: nat) -> Seq<Seq<char>> {
    let r = (if c > 0 { seq!["Fix "@ + decimal(c) + " Critical issues"@] } else { Seq::empty() })
        + (if e > 0 { seq!["Fix "@ + decimal(e) + " Error issues"@] } else { Seq::empty() })
        + (if w > 0 { seq!["Review "@ + decimal(w) + " Warning issues"@] } else { Seq::empty() });
    if r.len() == 0 { seq!["All plugins passed validation"@] } else { r }
}

pub open spec fn strings(v: Seq<String>) -> Seq<Seq<char>> {
    v.map_values(|s: String| s@)
}

fn count_findings(fs: &Vec<ValidationFinding>, s: ValidationSeverity) -> (r: usize)
    ensures
        r as nat == count_of(fs@, s),
        r <= fs@.len(),
{
    let mut n: usize = 0;
    for i in 0..fs.len()
        invariant
            n as nat == count_of(fs@.take(i as int), s),
            n <= i,
    {
        assert(fs@.take(i + 1).drop_last() =~= fs@.take(i as int));
        if fs[i].severity == s {
            n = n + 1;
        }
    }
    assert(fs@.take(fs@.len() as int) =~= fs@);
    n
}

/// The text of one finding in a validation result.
pub open spec fn finding_text(f: ValidationFinding) -> Seq<char> {
    "["@ + severity_label(f.severity) + "] "@ + f.rule_id@ + " - "@ + f.message@ + "\n"@
        + (match f.field { Some(x) => "  Field: "@ + x@ + "\n"@, None => Seq::empty() })
        + (match f.suggestion { Some(x) => "  Suggestion: "@ + x@ + "\n"@, None => Seq::empty() }) + "\n"@
}

pub open spec fn findings_text(fs: Seq<ValidationFinding>) -> Seq<char>
    decreases fs.len(),
{
    if fs.len() == 0 { Seq::empty() } else { findings_text(fs.drop_last()) + finding_text(fs.last()) }
}

pub open spec fn rule_line() -> Seq<char> {
    "═══════════════════════════════════════════════════════════════\n"@
}

pub open spec fn thin_line() -> Seq<char> {
    "──────────────────────────────────────────────────────────────\n"@
}

/// The text of a validation result.
pub open spec fn validation_text(r: ValidationResult) -> Seq<char> {
    let head = "\nPlugin Validation Result: "@ + r.plugin_name@ + " ("@ + r.plugin_id@ + ")\n"@ + rule_line() + "\n"@;
    let fs = r.findings@;
    if passes(r) {
        head + "Validation passed\n"@ + "Duration: "@ + decimal(r.duration_ms as nat) + "ms\n"@
    } else {
        head + "Critical: "@ + decimal(count_of(fs, ValidationSeverity::Critical)) + "\n"@
            + "Error: "@ + decimal(count_of(fs, ValidationSeverity::Error)) + "\n"@
            + "Warning: "@ + decimal(count_of(fs, ValidationSeverity::Warning)) + "\n"@
            + "Info: "@ + decimal(count_of(fs, ValidationSeverity::Info)) + "\n"@
            + "\nFindings:\n"@ + thin_line() + "\n"@ + findings_text(fs)
            + "Duration: "@ + decimal(r.duration_ms as nat) + "ms\n"@
    }
}

pub open spec fn short_findings(fs: Seq<ValidationFinding>) -> Seq<char>
    decreases fs.len(),
{
    if fs.len() == 0 {
        Seq::empty()
    } else {
        let f = fs.last();
        short_findings(fs.drop_last()) + "  ["@ + severity_label(f.severity) + "] "@ + f.rule_id@ + " - "@ + f.message@ + "\n"@
    }
}

pub open spec fn result_entry(r: ValidationResult) -> Seq<char> {
    "["@ + (if passes(r) { "PASS"@ } else { "FAIL"@ }) + "] "@ + r.plugin_name@ + " ("@ + r.plugin_id@ + ")\n"@
        + short_findings(r.findings@) + "\n"@
}

pub open spec fn result_entries(rs: Seq<ValidationResult>) -> Seq<char>
    decreases rs.len(),
{
    if rs.len() == 0 { Seq::empty() } else { result_entries(rs.drop_last()) + result_entry(rs.last()) }
}

pub open spec fn numbered(xs: Seq<Seq<char>>) -> Seq<char>
    decreases xs.len(),
{
    if xs.len() == 0 { Seq::empty() } else { numbered(xs.drop_last()) + "  "@ + decimal(xs.len()) + ". "@ + xs.last() + "\n"@ }
}

/// The text of an audit.
pub open spec fn audit_text(a: PluginAuditResult) -> Seq<char> {
    let s = a.summary;
    "\nPlugin Audit Report\n"@ + rule_line() + "\n"@
        + "Audited plugins: "@ + decimal(a.report.total_plugins as nat) + " (passed: "@ + decimal(a.report.passed as nat)
        + ", failed: "@ + decimal(a.report.failed as nat) + ")\n"@
        + "Risk Level: "@ + risk_label(s.risk_level) + "\n"@
        + "\nStatistics:\n  Critical: "@ + decimal(s.critical_count as nat) + "\n  Error: "@ + decimal(s.error_count as nat)
        + "\n  Warning: "@ + decimal(s.warning_count as nat) + "\n  Info: "@ + decimal(s.info_count as nat)
        + "\n  Total: "@ + decimal(s.total_findings as nat) + "\n"@
        + "\nRecommendations:\n"@ + numbered(strings(s.recommendations@))
        + if a.report.results@.len() == 0 { Seq::empty() } else { "\nDetailed Results:\n"@ + thin_line() + "\n"@ + result_entries(a.report.results@) }
}

fn push_finding(o: &mut String, f: &ValidationFinding)
    ensures
        final(o)@ == old(o)@ + finding_text(*f),
{
    let ghost start = o@;
    push_str(o, "[");
    push_str(o, severity_str(f.severity));
    push_str(o, "] ");
    push_str(o, f.rule_id.as_str());
    push_str(o, " - ");
    push_str(o, f.message.as_str());
    push_str(o, "\n");
    match &f.field {
        Some(x) => {
            push_str(o, "  Field: ");
            push_str(o, x.as_str());
            push_str(o, "\n");
        },
        None => {},
    }
    let ghost mid = o@;
    match &f.suggestion {
        Some(x) => {
            push_str(o, "  Suggestion: ");
            push_str(o, x.as_str());
            push_str(o, "\n");
        },
        None => {},
    }
    push_str(o, "\n");
    proof {
        reveal_strlit("");
    }
    assert(o@ =~= start + finding_text(*f));
}

fn push_entry(o: &mut String, r: &ValidationResult)
    ensures
        final(o)@ == old(o)@ + result_entry(*r),
{
    let ghost start = o@;
    let c = count_findings(&r.findings, ValidationSeverity::Critical);
    let e = count_findings(&r.findings, ValidationSeverity::Error);
    push_str(o, "[");
    push_str(o, if c == 0 && e == 0 { "PASS" } else { "FAIL" });
    push_str(o, "] ");
    push_str(o, r.plugin_name.as_str());
    push_str(o, " (");
    push_str(o, r.plugin_id.as_str());
    push_str(o, ")\n");
    let ghost mid = o@;
    for i in 0..r.findings.len()
        invariant
            o@ == mid + short_findings(r.findings@.take(i as int)),
    {
        let f = &r.findings[i];
        push_str(o, "  [");
        push_str(o, severity_str(f.severity));
        push_str(o, "] ");
        push_str(o, f.rule_id.as_str());
        push_str(o, " - ");
        push_str(o, f.message.as_str());
        push_str(o, "\n");
        assert(r.findings@.take(i + 1).drop_last() =~= r.findings@.take(i as int));
        assert(o@ =~= mid + short_findings(r.findings@.take(i + 1)));
    }
    assert(r.findings@.take(r.findings@.len() as int) =~= r.findings@);
    push_str(o, "\n");
    assert(o@ =~= start + result_entry(*r));
}

/// Summarizes and formats plugin validation.
pub struct PluginValidatorService;

impl PluginValidatorService {
    pub fn new() -> (r: Self) {
        PluginValidatorService
    }

    /// The counts, the risk and the advice drawn from `report`.
    pub fn generate_audit_summary(&self, report: &ValidationReport) -> (r: AuditSummary)
        requires
            report_count(report.results@, ValidationSeverity::Critical) + report_count(report.results@, ValidationSeverity::Error)
                + report_count(report.results@, ValidationSeverity::Warning) + report_count(report.results@, ValidationSeverity::Info)
                <= usize::MAX,
        ensures
            ({
                let c = report_count(report.results@, ValidationSeverity::Critical);
                let e = report_count(report.results@, ValidationSeverity::Error);
                let w = report_count(report.results@, ValidationSeverity::Warning);
                let i = report_count(report.results@, ValidationSeverity::Info);
                &&& r.critical_count == c
                &&& r.error_count == e
                &&& r.warning_count == w
                &&& r.info_count == i
                &&& r.total_findings == c + e + w + i
                &&& r.risk_level == risk_of(c, e)
                &&& strings(r.recommendations@) == recommendations(c, e, w)
            }),
    {
        let c = Self::total(&report.results, ValidationSeverity::Critical);
        let e = Self::total(&report.results, ValidationSeverity::Error);
        let w = Self::total(&report.results, ValidationSeverity::Warning);
        let i = Self::total(&report.results, ValidationSeverity::Info);
        let risk = if c > 0 {
            RiskLevel::Critical
        } else if e >= 3 {
            RiskLevel::High
        } else if e > 0 {
            RiskLevel::Medium
        } else {
            RiskLevel::Low
        };
        let mut recs: Vec<String> = Vec::new();
        if c > 0 {
            let mut m = owned("Fix ");
            push_decimal(&mut m, c);
            push_str(&mut m, " Critical issues");
            recs.push(m);
        }
        if e > 0 {
            let mut m = owned("Fix ");
            push_decimal(&mut m, e);
            push_str(&mut m, " Error issues");
            recs.push(m);
        }
        if w > 0 {
            let mut m = owned("Review ");
            push_decimal(&mut m, w);
            push_str(&mut m, " Warning issues");
            recs.push(m);
        }
        if recs.len() == 0 {
            recs.push(owned("All plugins passed validation"));
        }
        assert(strings(recs@) =~= recommendations(c as nat, e as nat, w as nat));
        AuditSummary {
            critical_count: c,
            error_count: e,
            warning_count: w,
            info_count: i,
            total_findings: c + e + w + i,
            risk_level: risk,
            recommendations: recs,
        }
    }

    fn total(rs: &Vec<ValidationResult>, s: ValidationSeverity) -> (r: usize)
        requires
            report_count(rs@, s) <= usize::MAX,
        ensures
            r as nat == report_count(rs@, s),
    {
        let mut n: usize = 0;
        for i in 0..rs.len()
            invariant
                report_count(rs@, s) <= usize::MAX,
                n as nat == report_count(rs@.take(i as int), s),
        {
            assert(rs@.take(i + 1).drop_last() =~= rs@.take(i as int));
            proof {
                lemma_report_count_prefix(rs@, s, i + 1);
            }
            n = n + count_findings(&rs[i].findings, s);
        }
        assert(rs@.take(rs@.len() as int) =~= rs@);
        n
    }

    /// The audit of `report`; an empty report has nothing to audit.
    pub fn audit(&self, report: ValidationReport) -> (r: PluginAuditResult)
        requires
            report_count(report.results@, ValidationSeverity::Critical) + report_count(report.results@, ValidationSeverity::Error)
                + report_count(report.results@, ValidationSeverity::Warning) + report_count(report.results@, ValidationSeverity::Info)
                <= usize::MAX,
        ensures
            report.results@.len() == 0 ==> strings(r.summary.recommendations@) == seq!["No plugins found to audit"@]
                && r.summary.total_findings == 0 && r.summary.risk_level == RiskLevel::Low,
            report.results@.len() > 0 ==> r.summary.risk_level == risk_of(
                report_count(report.results@, ValidationSeverity::Critical),
                report_count(report.results@, ValidationSeverity::Error),
            ),
            r.report.results@ == report.results@,
    {
        if report.results.len() == 0 {
            let mut recs: Vec<String> = Vec::new();
            recs.push(owned("No plugins found to audit"));
            assert(strings(recs@) =~= seq!["No plugins found to audit"@]);
            return PluginAuditResult {
                report,
                summary: AuditSummary {
                    critical_count: 0,
                    error_count: 0,
                    warning_count: 0,
                    info_count: 0,
                    total_findings: 0,
                    risk_level: RiskLevel::Low,
                    recommendations: recs,
                },
            };
        }
        let summary = self.generate_audit_summary(&report);
        PluginAuditResult { report, summary }
    }

    /// The text of a validation result.
    pub fn format_validation_result(&self, result: &ValidationResult) -> (r: String)
        ensures
            r@ == validation_text(*result),
    {
        let mut o = owned("\nPlugin Validation Result: ");
        push_str(&mut o, result.plugin_name.as_str());
        push_str(&mut o, " (");
        push_str(&mut o, result.plugin_id.as_str());
        push_str(&mut o, ")\n");
        push_str(&mut o, "═══════════════════════════════════════════════════════════════\n");
        push_str(&mut o, "\n");
        let fs = &result.findings;
        let c = count_findings(fs, ValidationSeverity::Critical);
        let e = count_findings(fs, ValidationSeverity::Error);
        if c == 0 && e == 0 {
            push_str(&mut o, "Validation passed\n");
            push_str(&mut o, "Duration: ");
            push_decimal_u64(&mut o, result.duration_ms);
            push_str(&mut o, "ms\n");
            assert(o@ =~= validation_text(*result));
            return o;
        }
        let w = count_findings(fs, ValidationSeverity::Warning);
        let i = count_findings(fs, ValidationSeverity::Info);
        push_str(&mut o, "Critical: ");
        push_decimal(&mut o, c);
        push_str(&mut o, "\n");
        push_str(&mut o, "Error: ");
        push_decimal(&mut o, e);
        push_str(&mut o, "\n");
        push_str(&mut o, "Warning: ");
        push_decimal(&mut o, w);
        push_str(&mut o, "\n");
        push_str(&mut o, "Info: ");
        push_decimal(&mut o, i);
        push_str(&mut o, "\n");
        push_str(&mut o, "\nFindings:\n");
        push_str(&mut o, "──────────────────────────────────────────────────────────────\n");
        push_str(&mut o, "\n");
        let ghost mid = o@;
        for k in 0..fs.len()
            invariant
                o@ == mid + findings_text(fs@.take(k as int)),
        {
            push_finding(&mut o, &fs[k]);
            assert(fs@.take(k + 1).drop_last() =~= fs@.take(k as int));
        }
        assert(fs@.take(fs@.len() as int) =~= fs@);
        push_str(&mut o, "Duration: ");
        push_decimal_u64(&mut o, result.duration_ms);
        push_str(&mut o, "ms\n");
        assert(o@ =~= validation_text(*result));
        o
    }

    /// The text of an audit.
    pub fn format_audit_result(&self, result: &PluginAuditResult) -> (r: String)
        ensures
            r@ == audit_text(*result),
    {
        let s = &result.summary;
        let mut o = owned("\nPlugin Audit Report\n");
        push_str(&mut o, "═══════════════════════════════════════════════════════════════\n");
        push_str(&mut o, "\n");
        push_str(&mut o, "Audited plugins: ");
        push_decimal(&mut o, result.report.total_plugins);
        push_str(&mut o, " (passed: ");
        push_decimal(&mut o, result.report.passed);
        push_str(&mut o, ", failed: ");
        push_decimal(&mut o, result.report.failed);
        push_str(&mut o, ")\n");
        push_str(&mut o, "Risk Level: ");
        push_str(&mut o, match s.risk_level {
            RiskLevel::Critical => "Critical",
            RiskLevel::High => "High",
            RiskLevel::Medium => "Medium",
            RiskLevel::Low => "Low",
        });
        push_str(&mut o, "\n");
        push_str(&mut o, "\nStatistics:\n  Critical: ");
        push_decimal(&mut o, s.critical_count);
        push_str(&mut o, "\n  Error: ");
        push_decimal(&mut o, s.error_count);
        push_str(&mut o, "\n  Warning: ");
        push_decimal(&mut o, s.warning_count);
        push_str(&mut o, "\n  Info: ");
        push_decimal(&mut o, s.info_count);
        push_str(&mut o, "\n  Total: ");
        push_decimal(&mut o, s.total_findings);
        push_str(&mut o, "\n");
        push_str(&mut o, "\nRecommendations:\n");
        let ghost m1 = o@;
        let ghost recs = strings(s.recommendations@);
        for k in 0..s.recommendations.len()
            invariant
                recs == strings(s.recommendations@),
                o@ == m1 + numbered(recs.take(k as int)),
        {
            push_str(&mut o, "  ");
            push_decimal(&mut o, k + 1);
            push_str(&mut o, ". ");
            push_str(&mut o, s.recommendations[k].as_str());
            push_str(&mut o, "\n");
            assert(recs.take(k + 1).drop_last() =~= recs.take(k as int));
            assert(o@ =~= m1 + numbered(recs.take(k + 1)));
        }
        assert(recs.take(recs.len() as int) =~= recs);
        let ghost m2 = o@;
        let rs = &result.report.results;
        if rs.len() > 0 {
            push_str(&mut o, "\nDetailed Results:\n");
            push_str(&mut o, "──────────────────────────────────────────────────────────────\n");
            push_str(&mut o, "\n");
            let ghost m3 = o@;
            for k in 0..rs.len()
                invariant
                    o@ == m3 + result_entries(rs@.take(k as int)),
            {
                push_entry(&mut o, &rs[k]);
                assert(rs@.take(k + 1).drop_last() =~= rs@.take(k as int));
            }
            assert(rs@.take(rs@.len() as int) =~= rs@);
        }
        assert(o@ =~= audit_text(*result));
        o
    }
}

proof fn lemma_report_count_prefix(rs: Seq<ValidationResult>, s: ValidationSeverity, k: int)
    requires
        0 <= k <= rs.len(),
    ensures
        report_count(rs.take(k), s) <= report_count(rs, s),
    decreases rs.len() - k,
{
    if k < rs.len() {
        lemma_report_count_prefix(rs, s, k + 1);
        assert(rs.take(k + 1).drop_last() =~= rs.take(k));
    } else {
        assert(rs.take(k) =~= rs);
    }
}

impl Default for PluginValidatorService {
    fn default() -> (r: Self) {
        PluginValidatorService
    }
}

} // verus!
