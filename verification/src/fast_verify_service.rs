//! Fast verification: the outcome of each check of a project and of a
//! whole run, and the layer rule applied to source files.
use vstd::prelude::*;
use crate::text::{owned, push_str, push_chars, push_decimal_u64, decimal, join, lines, views, str_lines, str_contains,
    contains, trim_start, starts_with, str_views, to_chars};
use crate::errors::{CellError, CellResult};

verus! {

/// One check of a run.
#[derive(Debug, Clone)]
pub struct VerifyCheck {
    pub name: String,
    pub passed: bool,
    pub duration_ms: u64,
    pub details: Option<String>,
}

/// A run of checks; it passes when every check does.
#[derive(Debug, Clone)]
pub struct VerifyResult {
    pub passed: bool,
    pub duration_ms: u64,
    pub checks: Vec<VerifyCheck>,
}

/// How a command of the toolchain ended: whether it succeeded, what it
/// printed, and how long it ran.
#[derive(Debug, Clone)]
pub struct CommandOutcome {
    pub success: bool,
    pub stdout: String,
    pub stderr: String,
    pub duration_ms: u64,
}

/// `c` is the compilation check made from how `cargo check` ended.
pub open spec fn is_compile_check(c: VerifyCheck, o: CommandOutcome) -> bool {
    &&& c.name@ == "编译检查 (cargo check)"@
    &&& c.passed == o.success
    &&& c.duration_ms == o.duration_ms
    &&& opt(c.details) == if o.success { None } else { Some(o.stderr@) }
}

/// `c` is the test check called `name` made from how a test run ended.
pub open spec fn is_test_check(c: VerifyCheck, name: Seq<char>, o: CommandOutcome) -> bool {
    &&& c.name@ == name
    &&& c.passed == o.success
    &&& c.duration_ms == o.duration_ms
    &&& opt(c.details) == if o.success { None } else { Some(o.stderr@ + "\n"@ + o.stdout@) }
}

/// `c` is the layer-rule check over the given domain and application files.
pub open spec fn is_layer_check(c: VerifyCheck, domain: Seq<(String, String)>, app: Seq<(String, String)>, ms: u64) -> bool {
    let msgs = layer_messages(file_views(domain), file_views(app));
    &&& c.name@ == "架构分层规则检查"@
    &&& c.passed == (msgs.len() == 0)
    &&& c.duration_ms == ms
    &&& opt(c.details) == if msgs.len() == 0 { None } else { Some(join(msgs, "\n"@)) }
}

pub open spec fn all_passed(cs: Seq<VerifyCheck>) -> bool {
    forall|i: int| 0 <= i < cs.len() ==> (#[trigger] cs[i]).passed
}

pub open spec fn opt(o: Option<String>) -> Option<Seq<char>> {
    match o {
        Some(s) => Some(s@),
        None => None,
    }
}

/// A domain file imports an outer layer.
pub open spec fn domain_breaks(content: Seq<char>) -> bool {
    contains(content, "use crate::application"@) || contains(content, "use crate::adapters"@)
        || contains(content, "use crate::interfaces"@)
}

/// Some line of `content` that is not a comment holds `p`.
pub open spec fn live_line_has(content: Seq<char>, p: Seq<char>) -> bool {
    exists|i: int| 0 <= i < lines(content).len() && !starts_with(trim_start(lines(content)[i]), "//"@)
        && contains(lines(content)[i], p)
}

/// An application file imports an outer layer outside comments.
pub open spec fn application_breaks(content: Seq<char>) -> bool {
    live_line_has(content, "use crate::adapters::"@) || live_line_has(content, "use crate::interfaces::"@)
}

/// The messages for the files that break the layer rule: domain files
/// first, then application files other than the verifier's own.
pub open spec fn layer_messages(domain: Seq<(Seq<char>, Seq<char>)>, app: Seq<(Seq<char>, Seq<char>)>) -> Seq<Seq<char>> {
    domain_messages(domain) + app_messages(app)
}

pub open spec fn domain_messages(fs: Seq<(Seq<char>, Seq<char>)>) -> Seq<Seq<char>>
    decreases fs.len(),
{
    if fs.len() == 0 {
        Seq::empty()
    } else {
        domain_messages(fs.drop_last()) + if domain_breaks(fs.last().1) {
            seq!["领域层依赖了外层: "@ + fs.last().0]
        } else {
            Seq::empty()
        }
    }
}

pub open spec fn app_messages(fs: Seq<(Seq<char>, Seq<char>)>) -> Seq<Seq<char>>
    decreases fs.len(),
{
    if fs.len() == 0 {
        Seq::empty()
    } else {
        app_messages(fs.drop_last()) + if fs.last().0 != "fast_verify_service.rs"@ && application_breaks(fs.last().1) {
            seq!["应用层依赖了外层: "@ + fs.last().0]
        } else {
            Seq::empty()
        }
    }
}

pub open spec fn file_views(fs: Seq<(String, String)>) -> Seq<(Seq<char>, Seq<char>)> {
    fs.map_values(|f: (String, String)| (f.0@, f.1@))
}

fn comment_line(l: &[char]) -> (r: bool)
    ensures
        r == starts_with(trim_start(l@), "//"@),
{
    let a = crate::text::skip_leading_ws(l);
    proof {
        reveal_strlit("//");
    }
    if l.len() - a < 2 {
        return false;
    }
    let r = l[a] == '/' && l[a + 1] == '/';
    proof {
        let t = l@.skip(a as int);
        assert(t[0] == l@[a as int]);
        assert(t[1] == l@[a + 1]);
        if r {
            assert(t.take(2) =~= "//"@);
        } else {
            assert(t.take(2)[0] != '/' || t.take(2)[1] != '/');
        }
    }
    r
}

fn live_has(content: &str, p: &str) -> (r: bool)
    ensures
        r == live_line_has(content@, p@),
{
    let ls = str_lines(content);
    let ghost lv = views(ls@);
    let pc = to_chars(p);
    for i in 0..ls.len()
        invariant
            lv == views(ls@),
            lv == lines(content@),
            pc@ == p@,
            forall|k: int| 0 <= k < i ==> !(!starts_with(trim_start(lv[k]), "//"@) && contains(lv[k], p@)),
    {
        assert(lv[i as int] == ls@[i as int]@);
        let comment = comment_line(ls[i].as_slice());
        if !comment && crate::text::contains_chars(ls[i].as_slice(), pc.as_slice()) {
            return true;
        }
    }
    false
}

fn application_file_breaks(content: &str) -> (r: bool)
    ensures
        r == application_breaks(content@),
{
    live_has(content, "use crate::adapters::") || live_has(content, "use crate::interfaces::")
}

fn cat(a: &str, b: &str) -> (r: String)
    ensures
        r@ == a@ + b@,
{
    let mut r = owned(a);
    push_str(&mut r, b);
    r
}

/// The messages for the files breaking the layer rule.
pub fn layer_violations(domain_files: &Vec<(String, String)>, application_files: &Vec<(String, String)>) -> (r: Vec<String>)
    ensures
        r@.map_values(|s: String| s@) == layer_messages(file_views(domain_files@), file_views(application_files@)),
{
    let ghost d = file_views(domain_files@);
    let ghost ap = file_views(application_files@);
    let mut out: Vec<String> = Vec::new();
    for i in 0..domain_files.len()
        invariant
            d == file_views(domain_files@),
            out@.map_values(|s: String| s@) == domain_messages(d.take(i as int)),
    {
        assert(d.take(i + 1).drop_last() =~= d.take(i as int));
        let f = &domain_files[i];
        let c = f.1.as_str();
        let ghost before = out@;
        if str_contains(c, "use crate::application") || str_contains(c, "use crate::adapters")
            || str_contains(c, "use crate::interfaces") {
            let m = cat("领域层依赖了外层: ", f.0.as_str());
            out.push(m);
            assert(out@.map_values(|s: String| s@) =~= before.map_values(|s: String| s@).push(m@));
        }
        assert(out@.map_values(|s: String| s@) =~= domain_messages(d.take(i + 1)));
    }
    assert(d.take(d.len() as int) =~= d);
    let ghost mid = out@.map_values(|s: String| s@);
    for i in 0..application_files.len()
        invariant
            ap == file_views(application_files@),
            mid == domain_messages(d),
            out@.map_values(|s: String| s@) == mid + app_messages(ap.take(i as int)),
    {
        assert(ap.take(i + 1).drop_last() =~= ap.take(i as int));
        let f = &application_files[i];
        let ghost before = out@;
        if !crate::text::str_eq(f.0.as_str(), "fast_verify_service.rs") && application_file_breaks(f.1.as_str()) {
            let m = cat("应用层依赖了外层: ", f.0.as_str());
            out.push(m);
            assert(out@.map_values(|s: String| s@) =~= before.map_values(|s: String| s@).push(m@));
        }
        assert(out@.map_values(|s: String| s@) =~= mid + app_messages(ap.take(i + 1)));
    }
    assert(ap.take(ap.len() as int) =~= ap);
    out
}

/// The text of a run: at most ten lines of each check's details.
pub open spec fn result_text(r: VerifyResult) -> Seq<char> {
    "\n"@ + (if r.passed { "✅"@ } else { "❌"@ }) + " 快速验证结果 (耗时: "@ + decimal(r.duration_ms as nat) + "ms)\n\n"@
        + checks_text(r.checks@) + "\n"@
}

pub open spec fn check_text(c: VerifyCheck) -> Seq<char> {
    "  "@ + (if c.passed { "✅"@ } else { "❌"@ }) + " "@ + c.name@ + " ("@ + decimal(c.duration_ms as nat) + "ms)\n"@
        + match c.details {
        Some(d) => {
            let ls = lines(d@);
            "     "@ + join(ls.take(if ls.len() < 10 { ls.len() as int } else { 10 }), "\n     "@) + "\n"@
        },
        None => Seq::empty(),
    }
}

pub open spec fn checks_text(cs: Seq<VerifyCheck>) -> Seq<char>
    decreases cs.len(),
{
    if cs.len() == 0 { Seq::empty() } else { checks_text(cs.drop_last()) + check_text(cs.last()) }
}

fn push_check(o: &mut String, c: &VerifyCheck)
    ensures
        final(o)@ == old(o)@ + check_text(*c),
{
    let ghost start = o@;
    push_str(o, "  ");
    push_str(o, if c.passed { "✅" } else { "❌" });
    push_str(o, " ");
    push_str(o, c.name.as_str());
    push_str(o, " (");
    push_decimal_u64(o, c.duration_ms);
    push_str(o, "ms)\n");
    let ghost mid = o@;
    match &c.details {
        Some(d) => {
            let ls = str_lines(d.as_str());
            let ghost lv = views(ls@);
            let shown: usize = if ls.len() < 10 { ls.len() } else { 10 };
            push_str(o, "     ");
            let ghost m2 = o@;
            for i in 0..shown
                invariant
                    shown <= ls@.len(),
                    lv == views(ls@),
                    o@ == m2 + join(lv.take(i as int), "\n     "@),
            {
                if i > 0 {
                    push_str(o, "\n     ");
                }
                push_chars(o, ls[i].as_slice());
                proof {
                    assert(lv[i as int] == ls@[i as int]@);
                    assert(lv.take(i + 1).drop_last() =~= lv.take(i as int));
                    if i == 0 {
                        assert(lv.take(1).len() == 1);
                    }
                }
                assert(o@ =~= m2 + join(lv.take(i + 1), "\n     "@));
            }
            push_str(o, "\n");
            assert(o@ =~= start + check_text(*c));
        },
        None => {
            assert(o@ =~= start + check_text(*c));
        },
    }
}

/// Runs the checks of a project and turns their outcomes into results.
pub struct FastVerifyService;

impl FastVerifyService {
    pub fn new() -> (r: Self) {
        FastVerifyService
    }

    fn outcome(check: &VerifyCheck, fallback: &str) -> (r: CellResult<()>)
        ensures
            check.passed ==> r is Ok,
            !check.passed ==> (r matches Err(CellError::Other(m)) && m@ == match check.details {
                Some(d) => d@,
                None => fallback@,
            }),
    {
        if check.passed {
            Ok(())
        } else {
            match &check.details {
                Some(d) => Err(CellError::Other(owned(d.as_str()))),
                None => Err(CellError::Other(owned(fallback))),
            }
        }
    }

    /// The compilation check as a result: its details, if any, on failure.
    pub fn check_compilation(&self, check: &VerifyCheck) -> (r: CellResult<()>)
        ensures
            check.passed ==> r is Ok,
            !check.passed ==> (r matches Err(CellError::Other(m)) && m@ == match check.details {
                Some(d) => d@,
                None => "编译失败"@,
            }),
    {
        Self::outcome(check, "编译失败")
    }

    /// The test check as a result.
    pub fn check_tests(&self, check: &VerifyCheck) -> (r: CellResult<()>)
        ensures
            check.passed ==> r is Ok,
            !check.passed ==> (r matches Err(CellError::Other(m)) && m@ == match check.details {
                Some(d) => d@,
                None => "测试失败"@,
            }),
    {
        Self::outcome(check, "测试失败")
    }

    /// The compilation check from how `cargo check` ended: its error output
    /// as details when it failed.
    pub fn compile_check(&self, success: bool, stderr: String, duration_ms: u64) -> (r: VerifyCheck)
        ensures
            r.name@ == "编译检查 (cargo check)"@,
            r.passed == success,
            r.duration_ms == duration_ms,
            success ==> r.details is None,
            !success ==> opt(r.details) == Some(stderr@),
    {
        VerifyCheck {
            name: owned("编译检查 (cargo check)"),
            passed: success,
            duration_ms,
            details: if success { None } else { Some(stderr) },
        }
    }

    fn test_check(name: &str, success: bool, stderr: &str, stdout: &str, duration_ms: u64) -> (r: VerifyCheck)
        ensures
            r.name@ == name@,
            r.passed == success,
            r.duration_ms == duration_ms,
            success ==> r.details is None,
            !success ==> opt(r.details) == Some(stderr@ + "\n"@ + stdout@),
    {
        let details = if success {
            None
        } else {
            let mut d = owned(stderr);
            push_str(&mut d, "\n");
            push_str(&mut d, stdout);
            Some(d)
        };
        VerifyCheck { name: owned(name), passed: success, duration_ms, details }
    }

    /// The fast unit-test check from how the library's tests ended: error
    /// and standard output as details when they failed.
    pub fn fast_test_check(&self, success: bool, stderr: &str, stdout: &str, duration_ms: u64) -> (r: VerifyCheck)
        ensures
            r.name@ == "快速单元测试"@,
            r.passed == success,
            r.duration_ms == duration_ms,
            success ==> r.details is None,
            !success ==> opt(r.details) == Some(stderr@ + "\n"@ + stdout@),
    {
        Self::test_check("快速单元测试", success, stderr, stdout, duration_ms)
    }

    /// The full test-suite check from how all tests ended.
    pub fn full_test_check(&self, success: bool, stderr: &str, stdout: &str, duration_ms: u64) -> (r: VerifyCheck)
        ensures
            r.name@ == "完整测试套件"@,
            r.passed == success,
            r.duration_ms == duration_ms,
            success ==> r.details is None,
            !success ==> opt(r.details) == Some(stderr@ + "\n"@ + stdout@),
    {
        Self::test_check("完整测试套件", success, stderr, stdout, duration_ms)
    }

    /// The layer-rule check over the domain and application files.
    pub fn check_architecture_rules(&self, domain_files: &Vec<(String, String)>, application_files: &Vec<(String, String)>, duration_ms: u64) -> (r: VerifyCheck)
        ensures
            r.name@ == "架构分层规则检查"@,
            r.passed == (layer_messages(file_views(domain_files@), file_views(application_files@)).len() == 0),
            r.duration_ms == duration_ms,
            r.passed ==> r.details is None,
            !r.passed ==> opt(r.details) == Some(join(layer_messages(file_views(domain_files@), file_views(application_files@)), "\n"@)),
    {
        let vs = layer_violations(domain_files, application_files);
        let passed = vs.len() == 0;
        let details = if passed {
            None
        } else {
            let mut d = String::new();
            crate::text::push_join(&mut d, &vs, "\n");
            assert(Seq::<char>::empty() + join(vs@.map_values(|x: String| x@), "\n"@) =~= join(vs@.map_values(|x: String| x@), "\n"@));
            Some(d)
        };
        VerifyCheck { name: owned("架构分层规则检查"), passed, duration_ms, details }
    }

    /// The architecture check as a result.
    pub fn check_architecture(&self, check: &VerifyCheck) -> (r: CellResult<()>)
        ensures
            check.passed ==> r is Ok,
            !check.passed ==> (r matches Err(CellError::Other(m)) && m@ == match check.details {
                Some(d) => d@,
                None => "架构验证失败"@,
            }),
    {
        Self::outcome(check, "架构验证失败")
    }

    fn run(checks: Vec<VerifyCheck>, duration_ms: u64) -> (r: VerifyResult)
        ensures
            r.passed == all_passed(checks@),
            r.checks@ == checks@,
            r.duration_ms == duration_ms,
    {
        let mut passed = true;
        for i in 0..checks.len()
            invariant
                passed == forall|k: int| 0 <= k < i ==> (#[trigger] checks@[k]).passed,
        {
            if !checks[i].passed {
                passed = false;
            }
        }
        VerifyResult { passed, duration_ms, checks }
    }

    /// The quick run: `cargo check`, the library's tests, the layer rule.
    pub fn quick_check(&self, compile: CommandOutcome, tests: CommandOutcome, domain_files: &Vec<(String, String)>, application_files: &Vec<(String, String)>, architecture_ms: u64, duration_ms: u64) -> (r: CellResult<VerifyResult>)
        ensures
            r is Ok,
            r->Ok_0.checks@.len() == 3,
            is_compile_check(r->Ok_0.checks@[0], compile),
            is_test_check(r->Ok_0.checks@[1], "快速单元测试"@, tests),
            is_layer_check(r->Ok_0.checks@[2], domain_files@, application_files@, architecture_ms),
            r->Ok_0.passed == (compile.success && tests.success
                && layer_messages(file_views(domain_files@), file_views(application_files@)).len() == 0),
            r->Ok_0.duration_ms == duration_ms,
    {
        let c = self.compile_check(compile.success, compile.stderr, compile.duration_ms);
        let t = self.fast_test_check(tests.success, tests.stderr.as_str(), tests.stdout.as_str(), tests.duration_ms);
        let a = self.check_architecture_rules(domain_files, application_files, architecture_ms);
        let mut checks: Vec<VerifyCheck> = Vec::new();
        checks.push(c);
        checks.push(t);
        checks.push(a);
        let r = Self::run(checks, duration_ms);
        assert(r.checks@ =~= seq![c, t, a]);
        assert(all_passed(r.checks@) == (c.passed && t.passed && a.passed)) by {
            assert(r.checks@[0] == c && r.checks@[1] == t && r.checks@[2] == a);
        }
        Ok(r)
    }

    /// The deep run: `cargo check`, all tests, the entropy gate, the layer rule.
    pub fn deep_check(&self, compile: CommandOutcome, tests: CommandOutcome, entropy: VerifyCheck, domain_files: &Vec<(String, String)>, application_files: &Vec<(String, String)>, architecture_ms: u64, duration_ms: u64) -> (r: CellResult<VerifyResult>)
        ensures
            r is Ok,
            r->Ok_0.checks@.len() == 4,
            is_compile_check(r->Ok_0.checks@[0], compile),
            is_test_check(r->Ok_0.checks@[1], "完整测试套件"@, tests),
            r->Ok_0.checks@[2] == entropy,
            is_layer_check(r->Ok_0.checks@[3], domain_files@, application_files@, architecture_ms),
            r->Ok_0.passed == (compile.success && tests.success && entropy.passed
                && layer_messages(file_views(domain_files@), file_views(application_files@)).len() == 0),
            r->Ok_0.duration_ms == duration_ms,
    {
        let c = self.compile_check(compile.success, compile.stderr, compile.duration_ms);
        let t = self.full_test_check(tests.success, tests.stderr.as_str(), tests.stdout.as_str(), tests.duration_ms);
        let a = self.check_architecture_rules(domain_files, application_files, architecture_ms);
        let mut checks: Vec<VerifyCheck> = Vec::new();
        checks.push(c);
        checks.push(t);
        checks.push(entropy);
        checks.push(a);
        let r = Self::run(checks, duration_ms);
        assert(r.checks@ =~= seq![c, t, entropy, a]);
        assert(all_passed(r.checks@) == (c.passed && t.passed && entropy.passed && a.passed)) by {
            assert(r.checks@[0] == c && r.checks@[1] == t && r.checks@[2] == entropy && r.checks@[3] == a);
        }
        Ok(r)
    }

    /// The text of a run.
    pub fn format_result(&self, result: &VerifyResult) -> (r: String)
        ensures
            r@ == result_text(*result),
    {
        let mut o = owned("\n");
        push_str(&mut o, if result.passed { "✅" } else { "❌" });
        push_str(&mut o, " 快速验证结果 (耗时: ");
        push_decimal_u64(&mut o, result.duration_ms);
        push_str(&mut o, "ms)\n\n");
        let ghost m = o@;
        let cs = &result.checks;
        for i in 0..cs.len()
            invariant
                o@ == m + checks_text(cs@.take(i as int)),
        {
            push_check(&mut o, &cs[i]);
            assert(cs@.take(i + 1).drop_last() =~= cs@.take(i as int));
        }
        assert(cs@.take(cs@.len() as int) =~= cs@);
        push_str(&mut o, "\n");
        assert(o@ =~= result_text(*result));
        o
    }
}

impl Default for FastVerifyService {
    fn default() -> (r: Self) {
        FastVerifyService
    }
}

} // verus!
