//! Automatic repair of architecture violations: what each violating line
//! becomes, the tally of a repair run, and advice for what needs a person.
use vstd::prelude::*;
use crate::text::{owned, push_str, push_decimal, push_chars, decimal, trim, starts_with, to_chars, trim_chars, begins,
    str_eq, lines, join, views, str_lines};
use crate::errors::CellResult;
use crate::arch_linter::{Layer, layer_name, layer_str};
use crate::arch_service::Violation;

verus! {

/// One change made (or proposed) to a file.
#[derive(Debug, Clone)]
pub struct FixChange {
    pub file: String,
    pub line: usize,
    pub old_content: String,
    pub new_content: String,
    pub description: String,
    pub success: bool,
    pub fix_type: FixType,
}

/// How a line was changed.
#[derive(Debug, Clone, Copy, PartialEq, Eq, Structural)]
pub enum FixType {
    ImportRemove,
    ImportComment,
    ImportRewrite,
    FileMove,
    CodeRefactor,
    TodoMark,
}

pub open spec fn fix_type_label(t: FixType) -> Seq<char> {
    match t {
        FixType::ImportRemove => "移除导入"@,
        FixType::ImportComment => "注释导入"@,
        FixType::ImportRewrite => "重写导入"@,
        FixType::FileMove => "移动文件"@,
        FixType::CodeRefactor => "代码重构"@,
        FixType::TodoMark => "标记TODO"@,
    }
}

impl FixType {
    pub fn label(&self) -> (r: &'static str)
        ensures
            r@ == fix_type_label(*self),
    {
        match self {
            FixType::ImportRemove => "移除导入",
            FixType::ImportComment => "注释导入",
            FixType::ImportRewrite => "重写导入",
            FixType::FileMove => "移动文件",
            FixType::CodeRefactor => "代码重构",
            FixType::TodoMark => "标记TODO",
        }
    }
}

/// Advice for what needs manual work.
#[derive(Debug, Clone)]
pub struct FixSuggestion {
    pub file: String,
    pub line: Option<usize>,
    pub title: String,
    pub description: String,
    pub severity: SuggestionSeverity,
    pub estimated_effort: String,
}

#[derive(Debug, Clone, Copy, PartialEq, Eq, Structural)]
pub enum SuggestionSeverity {
    Critical,
    High,
    Medium,
    Low,
}

pub open spec fn suggestion_label(s: SuggestionSeverity) -> Seq<char> {
    match s {
        SuggestionSeverity::Critical => "🔴 严重"@,
        SuggestionSeverity::High => "🟠 高"@,
        SuggestionSeverity::Medium => "🟡 中"@,
        SuggestionSeverity::Low => "🟢 低"@,
    }
}

pub open spec fn severity_rank(s: SuggestionSeverity) -> nat {
    match s {
        SuggestionSeverity::Critical => 0,
        SuggestionSeverity::High => 1,
        SuggestionSeverity::Medium => 2,
        SuggestionSeverity::Low => 3,
    }
}

impl SuggestionSeverity {
    pub fn label(&self) -> (r: &'static str)
        ensures
            r@ == suggestion_label(*self),
    {
        match self {
            SuggestionSeverity::Critical => "🔴 严重",
            SuggestionSeverity::High => "🟠 高",
            SuggestionSeverity::Medium => "🟡 中",
            SuggestionSeverity::Low => "🟢 低",
        }
    }
}

/// The outcome of a repair run.
#[derive(Debug, Clone)]
pub struct FixResult {
    pub fixed: usize,
    pub skipped: usize,
    pub failed: usize,
    pub changes: Vec<FixChange>,
    pub suggestions: Vec<FixSuggestion>,
}

pub open spec fn is_sep(c: char) -> bool {
    c == '/' || c == '\\' || c == ':'
}

/// The non-empty pieces of `s` between separators, `cur` being the piece
/// read so far.
pub open spec fn pieces(s: Seq<char>, cur: Seq<char>) -> Seq<Seq<char>>
    decreases s.len(),
{
    if s.len() == 0 {
        if cur.len() > 0 { seq![cur] } else { Seq::empty() }
    } else if is_sep(s[0]) {
        (if cur.len() > 0 { seq![cur] } else { Seq::empty() }) + pieces(s.drop_first(), Seq::empty())
    } else {
        pieces(s.drop_first(), cur.push(s[0]))
    }
}

/// The layer a name is, if it is one.
pub open spec fn layer_named(p: Seq<char>) -> Option<Layer> {
    if p == "domain"@ {
        Some(Layer::Domain)
    } else if p == "application"@ {
        Some(Layer::Application)
    } else if p == "adapters"@ {
        Some(Layer::Adapters)
    } else if p == "interfaces"@ {
        Some(Layer::Interfaces)
    } else {
        None
    }
}

/// The layer named by the first piece of `ps` that names one.
pub open spec fn first_layer(ps: Seq<Seq<char>>) -> Option<Layer>
    decreases ps.len(),
{
    if ps.len() == 0 {
        None
    } else {
        match layer_named(ps[0]) {
            Some(l) => Some(l),
            None => first_layer(ps.drop_first()),
        }
    }
}

/// The layer a module path lies in: its first piece that is a layer name.
pub open spec fn module_layer(path: Seq<char>) -> Option<Layer> {
    first_layer(pieces(path, Seq::empty()))
}

fn layer_of_piece(p: &[char]) -> (r: Option<Layer>)
    ensures
        r == layer_named(p@),
{
    let pc = to_chars("domain");
    if crate::text::chars_eq(p, pc.as_slice()) {
        return Some(Layer::Domain);
    }
    let pc = to_chars("application");
    if crate::text::chars_eq(p, pc.as_slice()) {
        return Some(Layer::Application);
    }
    let pc = to_chars("adapters");
    if crate::text::chars_eq(p, pc.as_slice()) {
        return Some(Layer::Adapters);
    }
    let pc = to_chars("interfaces");
    if crate::text::chars_eq(p, pc.as_slice()) {
        return Some(Layer::Interfaces);
    }
    None
}

proof fn lemma_pieces_step(s: Seq<char>, cur: Seq<char>, i: int)
    requires
        0 <= i < s.len(),
    ensures
        is_sep(s[i]) ==> pieces(s.skip(i), cur) == (if cur.len() > 0 { seq![cur] } else { Seq::<Seq<char>>::empty() })
            + pieces(s.skip(i + 1), Seq::empty()),
        !is_sep(s[i]) ==> pieces(s.skip(i), cur) == pieces(s.skip(i + 1), cur.push(s[i])),
{
    assert(s.skip(i).drop_first() =~= s.skip(i + 1));
    assert(s.skip(i)[0] == s[i]);
}

proof fn lemma_first_layer_concat(a: Seq<Seq<char>>, b: Seq<Seq<char>>)
    requires
        first_layer(a) is None,
    ensures
        first_layer(a + b) == first_layer(b),
    decreases a.len(),
{
    if a.len() > 0 {
        assert((a + b).drop_first() =~= a.drop_first() + b);
        lemma_first_layer_concat(a.drop_first(), b);
    } else {
        assert(a + b =~= b);
    }
}

/// The layer a module path lies in.
pub fn extract_layer(module_ref: &str) -> (r: Option<Layer>)
    ensures
        r == module_layer(module_ref@),
{
    let s = to_chars(module_ref);
    let n = s.len();
    let mut cur: Vec<char> = Vec::new();
    let mut i: usize = 0;
    assert(s@.skip(0) =~= s@);
    assert(cur@ =~= Seq::<char>::empty());
    while i < n
        invariant
            n == s@.len(),
            s@ == module_ref@,
            i <= n,
            module_layer(module_ref@) == first_layer(pieces(s@.skip(i as int), cur@)),
        decreases n - i,
    {
        proof {
            lemma_pieces_step(s@, cur@, i as int);
        }
        let c = s[i];
        if c == '/' || c == '\\' || c == ':' {
            if cur.len() > 0 {
                let l = layer_of_piece(cur.as_slice());
                if l.is_some() {
                    proof {
                        assert((seq![cur@] + pieces(s@.skip(i + 1), Seq::empty()))[0] == cur@);
                    }
                    return l;
                }
                proof {
                    assert(first_layer(seq![cur@]) is None) by {
                        reveal_with_fuel(first_layer, 2);
                        assert(seq![cur@].drop_first() =~= Seq::<Seq<char>>::empty());
                    }
                    lemma_first_layer_concat(seq![cur@], pieces(s@.skip(i + 1), Seq::empty()));
                }
            } else {
                proof {
                    assert(Seq::<Seq<char>>::empty() + pieces(s@.skip(i + 1), Seq::empty()) =~= pieces(s@.skip(i + 1), Seq::empty()));
                }
            }
            cur = Vec::new();
        } else {
            cur.push(c);
        }
        i = i + 1;
    }
    assert(s@.skip(n as int) =~= Seq::<char>::empty());
    proof {
        reveal_with_fuel(first_layer, 2);
        assert(seq![cur@].drop_first() =~= Seq::<Seq<char>>::empty());
    }
    if cur.len() > 0 {
        layer_of_piece(cur.as_slice())
    } else {
        None
    }
}

fn layer_rank(l: Layer) -> (r: u8)
    ensures
        r as nat == crate::entropy_service::layer_rank(l),
{
    match l {
        Layer::Domain => 0,
        Layer::Application => 1,
        Layer::Adapters => 2,
        Layer::Interfaces => 3,
    }
}

/// What a violating line becomes: (new line, description, kind of change).
pub open spec fn fix_line(line: Seq<char>, from: Layer, to: Layer, file: Seq<char>) -> (Seq<char>, Seq<char>, FixType) {
    let f = layer_name(from);
    let t = layer_name(to);
    if crate::entropy_service::layer_rank(from) > crate::entropy_service::layer_rank(to) {
        ("// FIXME: 架构违规 - "@ + f + " 禁止依赖 "@ + t + ": "@ + trim(line), "标记违规: "@ + f + " 层 → "@ + t + " 层依赖"@,
            FixType::TodoMark)
    } else if starts_with(trim(line), "use "@) || starts_with(trim(line), "pub use "@) {
        ("// TODO: 需要移至正确层 - "@ + trim(line), "标记待迁移: "@ + f + " → "@ + t + " (文件位于: "@ + file + ")"@,
            FixType::ImportComment)
    } else {
        (line, "需要手动重构: "@ + f + " 不能依赖 "@ + t, FixType::CodeRefactor)
    }
}

/// What the line of a naming violation becomes.
pub open spec fn naming_fix(line: Seq<char>) -> (Seq<char>, Seq<char>, FixType) {
    ("// FIXME: 命名违规 - "@ + trim(line), "标记为命名违规，需要手动修复"@, FixType::TodoMark)
}

/// The change proposed for `violation`, whose line reads `old_line`: layer
/// violations between known layers and naming violations can be marked;
/// anything else is skipped.
pub open spec fn planned(rule: Seq<char>, from_module: Seq<char>, to_module: Seq<char>, file: Seq<char>, old_line: Seq<char>) -> Option<(Seq<char>, Seq<char>, FixType)> {
    if rule == "layer_dependency"@ {
        match (module_layer(from_module), module_layer(to_module)) {
            (Some(f), Some(t)) => Some(fix_line(old_line, f, t, file)),
            _ => None,
        }
    } else if rule == "module_naming"@ {
        Some(naming_fix(old_line))
    } else {
        None
    }
}

pub open spec fn change_view(c: FixChange) -> (Seq<char>, Seq<char>, FixType) {
    (c.new_content@, c.description@, c.fix_type)
}

/// Suggestions come most severe first.
pub open spec fn by_severity(ss: Seq<FixSuggestion>) -> bool {
    forall|i: int, j: int| 0 <= i < j < ss.len() ==> severity_rank(ss[i].severity) <= severity_rank(ss[j].severity)
}

/// Layer violations counted by the module they come from, in first-seen order.
pub open spec fn module_tally(vs: Seq<Violation>) -> Seq<(Seq<char>, nat)>
    decreases vs.len(),
{
    if vs.len() == 0 {
        Seq::empty()
    } else {
        let t = module_tally(vs.drop_last());
        let v = vs.last();
        if v.rule@ != "layer_dependency"@ {
            t
        } else if exists|k: int| 0 <= k < t.len() && t[k].0 == v.from_module@ {
            let k = choose|k: int| 0 <= k < t.len() && t[k].0 == v.from_module@;
            t.update(k, (t[k].0, t[k].1 + 1))
        } else {
            t.push((v.from_module@, 1nat))
        }
    }
}

pub open spec fn rule_count(vs: Seq<Violation>, rule: Seq<char>) -> nat
    decreases vs.len(),
{
    if vs.len() == 0 {
        0
    } else {
        rule_count(vs.drop_last(), rule) + if vs.last().rule@ == rule { 1nat } else { 0nat }
    }
}

fn trimmed(s: &str) -> (r: Vec<char>)
    ensures
        r@ == trim(s@),
{
    let c = to_chars(s);
    trim_chars(c.as_slice())
}

/// Repairs architecture violations and reports on the run.
pub struct ArchitectureFixer;

impl ArchitectureFixer {
    pub fn new() -> (r: Self) {
        ArchitectureFixer
    }

    /// What a violating line becomes.
    pub fn generate_fix_line(&self, line: &str, from: Layer, to: Layer, file: &str) -> (r: (String, String, FixType))
        ensures
            (r.0@, r.1@, r.2) == fix_line(line@, from, to, file@),
    {
        let f = layer_str(from);
        let t = layer_str(to);
        let tl = trimmed(line);
        if layer_rank(from) > layer_rank(to) {
            let mut a = owned("// FIXME: 架构违规 - ");
            push_str(&mut a, f);
            push_str(&mut a, " 禁止依赖 ");
            push_str(&mut a, t);
            push_str(&mut a, ": ");
            push_chars(&mut a, tl.as_slice());
            let mut b = owned("标记违规: ");
            push_str(&mut b, f);
            push_str(&mut b, " 层 → ");
            push_str(&mut b, t);
            push_str(&mut b, " 层依赖");
            (a, b, FixType::TodoMark)
        } else if begins(tl.as_slice(), "use ") || begins(tl.as_slice(), "pub use ") {
            let mut a = owned("// TODO: 需要移至正确层 - ");
            push_chars(&mut a, tl.as_slice());
            let mut b = owned("标记待迁移: ");
            push_str(&mut b, f);
            push_str(&mut b, " → ");
            push_str(&mut b, t);
            push_str(&mut b, " (文件位于: ");
            push_str(&mut b, file);
            push_str(&mut b, ")");
            (a, b, FixType::ImportComment)
        } else {
            let mut b = owned("需要手动重构: ");
            push_str(&mut b, f);
            push_str(&mut b, " 不能依赖 ");
            push_str(&mut b, t);
            (owned(line), b, FixType::CodeRefactor)
        }
    }

    /// The change proposed for `violation` whose line in `file` reads
    /// `old_line`; `None` where nothing can be done automatically. The
    /// change is not yet applied.
    pub fn plan_change(&self, violation: &Violation, file: &str, old_line: &str) -> (r: Option<FixChange>)
        ensures
            match planned(violation.rule@, violation.from_module@, violation.to_module@, violation.file@, old_line@) {
                Some(p) => r matches Some(c) && change_view(c) == p && c.file@ == file@ && c.line == violation.line
                    && c.old_content@ == old_line@ && !c.success,
                None => r is None,
            },
    {
        if str_eq(violation.rule.as_str(), "layer_dependency") {
            let from = extract_layer(violation.from_module.as_str());
            let to = extract_layer(violation.to_module.as_str());
            match (from, to) {
                (Some(f), Some(t)) => {
                    let (new_line, description, fix_type) = self.generate_fix_line(old_line, f, t, violation.file.as_str());
                    Some(FixChange {
                        file: owned(file),
                        line: violation.line,
                        old_content: owned(old_line),
                        new_content: new_line,
                        description,
                        success: false,
                        fix_type,
                    })
                },
                _ => None,
            }
        } else if str_eq(violation.rule.as_str(), "module_naming") {
            let tl = trimmed(old_line);
            let mut a = owned("// FIXME: 命名违规 - ");
            push_chars(&mut a, tl.as_slice());
            Some(FixChange {
                file: owned(file),
                line: violation.line,
                old_content: owned(old_line),
                new_content: a,
                description: owned("标记为命名违规，需要手动修复"),
                success: false,
                fix_type: FixType::TodoMark,
            })
        } else {
            None
        }
    }

    /// The outcome of a run: `attempts` holds, for each violation, the
    /// change made (with whether writing it succeeded), `None` when it was
    /// skipped, or the error that stopped it. Changes count as fixed when
    /// they succeeded outside a dry run; a dry run writes nothing, so each
    /// planned change is reported as made and none as fixed.
    pub fn fix(&self, project_path: &str, violations: &Vec<Violation>, attempts: Vec<CellResult<Option<FixChange>>>, dry_run: bool) -> (r: FixResult)
        requires
            rule_count(violations@, "module_naming"@) < usize::MAX,
            rule_count(violations@, "circular_dependency"@) < usize::MAX,
        ensures
            r.fixed == attempt_count(attempts@, |c: FixChange| c.success && !dry_run),
            r.skipped == skip_count(attempts@),
            r.failed == error_count(attempts@),
            !dry_run ==> r.changes@ == made(attempts@),
            dry_run ==> r.changes@ == as_made(made(attempts@)),
            r.changes@.len() + r.skipped + r.failed == attempts@.len(),
            attempts@.len() == violations@.len() ==> r.changes@.len() + r.skipped + r.failed == violations@.len(),
            dry_run ==> r.fixed == 0,
            dry_run ==> forall|k: int| 0 <= k < r.changes@.len() ==> (#[trigger] r.changes@[k]).success,
            by_severity(r.suggestions@),
            r.suggestions@.map_values(|x: FixSuggestion| suggestion_view(x)) == suggestions_for(project_path@, violations@),
    {
        let ghost input = attempts@;
        let mut rest = attempts;
        let n = rest.len();
        let mut fixed: usize = 0;
        let mut skipped: usize = 0;
        let mut failed: usize = 0;
        let mut changes: Vec<FixChange> = Vec::new();
        let mut i: usize = 0;
        while i < n
            invariant
                n == input.len(),
                i <= n,
                rest@ == input.skip(i as int),
                fixed == attempt_count(input.take(i as int), |c: FixChange| c.success && !dry_run),
                skipped == skip_count(input.take(i as int)),
                failed == error_count(input.take(i as int)),
                !dry_run ==> changes@ == made(input.take(i as int)),
                dry_run ==> changes@ == as_made(made(input.take(i as int))),
                fixed <= i && skipped <= i && failed <= i,
            decreases n - i,
        {
            let a = rest.remove(0);
            assert(a == input[i as int]);
            assert(input.skip(i + 1) =~= input.skip(i as int).remove(0));
            assert(input.take(i + 1).drop_last() =~= input.take(i as int));
            match a {
                Ok(Some(change)) => {
                    if change.success && !dry_run {
                        fixed = fixed + 1;
                    }
                    let ghost before = changes@;
                    let ghost c0 = change;
                    let mut change = change;
                    if dry_run {
                        change.success = true;
                    }
                    changes.push(change);
                    proof {
                        if dry_run {
                            assert(as_made(made(input.take(i as int)).push(c0)) =~= before.push(change));
                        }
                    }
                },
                Ok(None) => {
                    skipped = skipped + 1;
                },
                Err(_) => {
                    failed = failed + 1;
                },
            }
            i = i + 1;
        }
        assert(input.take(n as int) =~= input);
        proof {
            law_every_attempt_counted(input);
            if dry_run {
                lemma_nothing_counted(input, |c: FixChange| c.success && !dry_run);
            }
        }
        let suggestions = self.generate_suggestions(project_path, violations);
        FixResult { fixed, skipped, failed, changes, suggestions }
    }

    /// The advice for what the violations leave to be done by hand: modules
    /// with many layer violations (the worst first), then cycles, then
    /// naming.
    fn generate_suggestions(&self, project_path: &str, violations: &Vec<Violation>) -> (r: Vec<FixSuggestion>)
        requires
            rule_count(violations@, "module_naming"@) < usize::MAX,
            rule_count(violations@, "circular_dependency"@) < usize::MAX,
        ensures
            by_severity(r@),
            r@.map_values(|x: FixSuggestion| suggestion_view(x)) == suggestions_for(project_path@, violations@),
    {
        let mut modules: Vec<String> = Vec::new();
        let mut counts: Vec<usize> = Vec::new();
        let mut naming: usize = 0;
        let mut circular: usize = 0;
        proof {
            assert(violations@.take(0) =~= Seq::<Violation>::empty());
        }
        for i in 0..violations.len()
            invariant
                modules@.len() == counts@.len(),
                modules@.len() == module_tally(violations@.take(i as int)).len(),
                forall|q: int| 0 <= q < modules@.len() ==> (#[trigger] modules@[q])@ == module_tally(violations@.take(i as int))[q].0,
                forall|q: int| 0 <= q < counts@.len() ==> (#[trigger] counts@[q]) as nat == module_tally(violations@.take(i as int))[q].1,
                naming as nat == rule_count(violations@.take(i as int), "module_naming"@),
                circular as nat == rule_count(violations@.take(i as int), "circular_dependency"@),
                rule_count(violations@, "module_naming"@) < usize::MAX,
                rule_count(violations@, "circular_dependency"@) < usize::MAX,
                forall|k: int| 0 <= k < counts@.len() ==> counts@[k] <= i,
                i <= violations@.len(),
        {
            let v = &violations[i];
            let ghost t = module_tally(violations@.take(i as int));
            assert(violations@.take(i + 1).drop_last() =~= violations@.take(i as int));
            proof {
                lemma_rule_count_prefix(violations@, "module_naming"@, i + 1);
                lemma_rule_count_prefix(violations@, "circular_dependency"@, i + 1);
                lemma_tally_distinct(violations@.take(i as int));
            }
            assert(violations@.take(i + 1).last() == violations@[i as int]);
            proof {
                reveal_strlit("layer_dependency");
                reveal_strlit("module_naming");
                reveal_strlit("circular_dependency");
            }
            if str_eq(v.rule.as_str(), "layer_dependency") {
                assert(v.rule@ == "layer_dependency"@);
                assert("layer_dependency"@ != "module_naming"@) by {
                    assert("layer_dependency"@.len() != "module_naming"@.len());
                }
                assert("layer_dependency"@ != "circular_dependency"@) by {
                    assert("layer_dependency"@[0] != "circular_dependency"@[0]);
                }
                match Self::position_of(&modules, v.from_module.as_str()) {
                    Some(k) => {
                        let c = counts[k];
                        counts.set(k, c + 1);
                        proof {
                            assert(t[k as int].0 == v.from_module@);
                            let kk = choose|kk: int| 0 <= kk < t.len() && t[kk].0 == v.from_module@;
                            assert(kk == k as int);
                            let t2 = module_tally(violations@.take(i + 1));
                            assert(t2 == t.update(k as int, (t[k as int].0, t[k as int].1 + 1)));
                            assert forall|q: int| 0 <= q < modules@.len() implies (#[trigger] modules@[q])@ == t2[q].0 by {}
                            assert forall|q: int| 0 <= q < counts@.len() implies (#[trigger] counts@[q]) as nat == t2[q].1 by {
                                if q != k as int {
                                    assert(counts@[q] as nat == t[q].1);
                                }
                            }
                        }
                    },
                    None => {
                        let ghost old_modules = modules@;
                        let ghost old_counts = counts@;
                        modules.push(owned(v.from_module.as_str()));
                        counts.push(1);
                        proof {
                            assert(!(exists|kk: int| 0 <= kk < t.len() && t[kk].0 == v.from_module@)) by {
                                if exists|kk: int| 0 <= kk < t.len() && t[kk].0 == v.from_module@ {
                                    let kk = choose|kk: int| 0 <= kk < t.len() && t[kk].0 == v.from_module@;
                                    assert(modules@[kk]@ == t[kk].0);
                                }
                            }
                            let t2 = module_tally(violations@.take(i + 1));
                            assert(t2 == t.push((v.from_module@, 1nat)));
                            assert forall|q: int| 0 <= q < modules@.len() implies (#[trigger] modules@[q])@ == t2[q].0 by {
                                if q < t.len() {
                                    assert(modules@[q] == old_modules[q]);
                                }
                            }
                            assert forall|q: int| 0 <= q < counts@.len() implies (#[trigger] counts@[q]) as nat == t2[q].1 by {
                                if q < t.len() {
                                    assert(counts@[q] == old_counts[q]);
                                }
                            }
                        }
                    },
                }
            } else {
                assert(module_tally(violations@.take(i + 1)) == t);
                if str_eq(v.rule.as_str(), "module_naming") {
                    assert("module_naming"@ != "circular_dependency"@) by {
                        assert("module_naming"@.len() != "circular_dependency"@.len());
                    }
                    naming = naming + 1;
                } else if str_eq(v.rule.as_str(), "circular_dependency") {
                    circular = circular + 1;
                }
            }
        }
        assert(violations@.take(violations@.len() as int) =~= violations@);
        let ghost t = module_tally(violations@);
        let mut r: Vec<FixSuggestion> = Vec::new();
        assert(t.take(0) =~= Seq::<(Seq<char>, nat)>::empty());
        for k in 0..modules.len()
            invariant
                modules@.len() == counts@.len(),
                modules@.len() == t.len(),
                forall|q: int| 0 <= q < modules@.len() ==> (#[trigger] modules@[q])@ == t[q].0,
                forall|q: int| 0 <= q < counts@.len() ==> (#[trigger] counts@[q]) as nat == t[q].1,
                forall|q: int| 0 <= q < r@.len() ==> (#[trigger] r@[q]).severity == SuggestionSeverity::Critical,
                r@.map_values(|x: FixSuggestion| suggestion_view(x)) == band_advice(t.take(k as int), SuggestionSeverity::Critical),
        {
            let ghost before = r@;
            assert(t.take(k + 1).drop_last() =~= t.take(k as int));
            assert(t.take(k + 1).last() == t[k as int]);
            if counts[k] >= 5 {
                r.push(Self::module_suggestion(modules[k].as_str(), counts[k], SuggestionSeverity::Critical));
                assert(r@.map_values(|x: FixSuggestion| suggestion_view(x)) =~= before.map_values(|x: FixSuggestion| suggestion_view(x)).push(suggestion_view(r@.last())));
            }
        }
        assert(t.take(t.len() as int) =~= t);
        let n_crit = r.len();
        let ghost crit = r@.map_values(|x: FixSuggestion| suggestion_view(x));
        assert(t.take(0) =~= Seq::<(Seq<char>, nat)>::empty());
        for k in 0..modules.len()
            invariant
                modules@.len() == counts@.len(),
                modules@.len() == t.len(),
                forall|q: int| 0 <= q < modules@.len() ==> (#[trigger] modules@[q])@ == t[q].0,
                forall|q: int| 0 <= q < counts@.len() ==> (#[trigger] counts@[q]) as nat == t[q].1,
                n_crit <= r@.len(),
                forall|q: int| 0 <= q < n_crit ==> (#[trigger] r@[q]).severity == SuggestionSeverity::Critical,
                forall|q: int| n_crit <= q < r@.len() ==> (#[trigger] r@[q]).severity == SuggestionSeverity::High,
                crit == band_advice(t, SuggestionSeverity::Critical),
                r@.map_values(|x: FixSuggestion| suggestion_view(x)) == crit + band_advice(t.take(k as int), SuggestionSeverity::High),
        {
            let ghost before = r@;
            assert(t.take(k + 1).drop_last() =~= t.take(k as int));
            assert(t.take(k + 1).last() == t[k as int]);
            if counts[k] >= 3 && counts[k] < 5 {
                r.push(Self::module_suggestion(modules[k].as_str(), counts[k], SuggestionSeverity::High));
                assert(r@.map_values(|x: FixSuggestion| suggestion_view(x)) =~= before.map_values(|x: FixSuggestion| suggestion_view(x)).push(suggestion_view(r@.last())));
            }
        }
        assert(t.take(t.len() as int) =~= t);
        let n_high = r.len();
        let ghost bands = r@.map_values(|x: FixSuggestion| suggestion_view(x));
        if circular > 0 {
            let mut title = owned("检测到 ");
            push_decimal(&mut title, circular);
            push_str(&mut title, " 个循环依赖");
            r.push(FixSuggestion {
                file: owned(project_path),
                line: None,
                title,
                description: owned("循环依赖会增加系统复杂度，建议通过接口抽象解耦"),
                severity: SuggestionSeverity::High,
                estimated_effort: owned("4-8 小时"),
            });
            assert(r@.map_values(|x: FixSuggestion| suggestion_view(x)) =~= bands + cycle_advice(project_path@, circular as nat));
        } else {
            assert(r@.map_values(|x: FixSuggestion| suggestion_view(x)) =~= bands + cycle_advice(project_path@, circular as nat));
        }
        let ghost upto_cycles = r@.map_values(|x: FixSuggestion| suggestion_view(x));
        if naming > 0 {
            let mut title = owned("发现 ");
            push_decimal(&mut title, naming);
            push_str(&mut title, " 个命名违规");
            r.push(FixSuggestion {
                file: owned(project_path),
                line: None,
                title,
                description: owned("建议统一模块和文件命名规范，使用 snake_case"),
                severity: SuggestionSeverity::Medium,
                estimated_effort: owned("1 小时"),
            });
            assert(r@.map_values(|x: FixSuggestion| suggestion_view(x)) =~= upto_cycles + naming_advice(project_path@, naming as nat));
        } else {
            assert(r@.map_values(|x: FixSuggestion| suggestion_view(x)) =~= upto_cycles + naming_advice(project_path@, naming as nat));
        }
        assert forall|a: int, b: int| 0 <= a < b < r@.len() implies severity_rank(r@[a].severity) <= severity_rank(r@[b].severity) by {
            if a < n_crit as int {
            } else if b < n_high as int {
                assert(r@[a].severity == SuggestionSeverity::High);
                assert(r@[b].severity == SuggestionSeverity::High);
            }
        }
        r
    }

    /// The position of `name` among `names`, if it is there.
    fn position_of(names: &Vec<String>, name: &str) -> (r: Option<usize>)
        ensures
            match r {
                Some(k) => k < names@.len() && names@[k as int]@ == name@,
                None => forall|k: int| 0 <= k < names@.len() ==> (#[trigger] names@[k])@ != name@,
            },
    {
        for k in 0..names.len()
            invariant
                forall|q: int| 0 <= q < k ==> (#[trigger] names@[q])@ != name@,
        {
            if str_eq(names[k].as_str(), name) {
                return Some(k);
            }
        }
        None
    }

    fn module_suggestion(module: &str, count: usize, severity: SuggestionSeverity) -> (r: FixSuggestion)
        ensures
            r.severity == severity,
            suggestion_view(r) == module_advice(module@, count as nat, severity),
    {
        let mut title = owned("模块 '");
        push_str(&mut title, module);
        push_str(&mut title, "' 存在大量架构违规");
        let mut description = owned("该模块有 ");
        push_decimal(&mut description, count);
        push_str(&mut description, " 个跨层依赖违规，建议重构到正确的层级");
        FixSuggestion {
            file: owned(module),
            line: None,
            title,
            description,
            severity,
            estimated_effort: owned("2-4 小时"),
        }
    }
}

/// A suggestion as plain values: file, line, title, description, severity
/// and effort.
pub open spec fn suggestion_view(s: FixSuggestion) -> (Seq<char>, Option<usize>, Seq<char>, Seq<char>, SuggestionSeverity, Seq<char>) {
    (s.file@, s.line, s.title@, s.description@, s.severity, s.estimated_effort@)
}

/// The advice for a module with `c` layer violations.
pub open spec fn module_advice(m: Seq<char>, c: nat, sev: SuggestionSeverity)
    -> (Seq<char>, Option<usize>, Seq<char>, Seq<char>, SuggestionSeverity, Seq<char>) {
    (m, None, "模块 '"@ + m + "' 存在大量架构违规"@, "该模块有 "@ + decimal(c) + " 个跨层依赖违规，建议重构到正确的层级"@, sev,
        "2-4 小时"@)
}

/// Five layer violations or more call for critical advice, three or four
/// for high.
pub open spec fn in_band(c: nat, sev: SuggestionSeverity) -> bool {
    match sev {
        SuggestionSeverity::Critical => c >= 5,
        SuggestionSeverity::High => 3 <= c && c < 5,
        _ => false,
    }
}

/// The module advice of severity `sev`, in the order of the tally.
pub open spec fn band_advice(t: Seq<(Seq<char>, nat)>, sev: SuggestionSeverity)
    -> Seq<(Seq<char>, Option<usize>, Seq<char>, Seq<char>, SuggestionSeverity, Seq<char>)>
    decreases t.len(),
{
    if t.len() == 0 {
        Seq::empty()
    } else {
        let p = band_advice(t.drop_last(), sev);
        if in_band(t.last().1, sev) { p.push(module_advice(t.last().0, t.last().1, sev)) } else { p }
    }
}

/// The advice about `n` cycles, if there are any.
pub open spec fn cycle_advice(project: Seq<char>, n: nat)
    -> Seq<(Seq<char>, Option<usize>, Seq<char>, Seq<char>, SuggestionSeverity, Seq<char>)> {
    if n > 0 {
        seq![(project, None, "检测到 "@ + decimal(n) + " 个循环依赖"@, "循环依赖会增加系统复杂度，建议通过接口抽象解耦"@,
            SuggestionSeverity::High, "4-8 小时"@)]
    } else {
        Seq::empty()
    }
}

/// The advice about `n` naming violations, if there are any.
pub open spec fn naming_advice(project: Seq<char>, n: nat)
    -> Seq<(Seq<char>, Option<usize>, Seq<char>, Seq<char>, SuggestionSeverity, Seq<char>)> {
    if n > 0 {
        seq![(project, None, "发现 "@ + decimal(n) + " 个命名违规"@, "建议统一模块和文件命名规范，使用 snake_case"@,
            SuggestionSeverity::Medium, "1 小时"@)]
    } else {
        Seq::empty()
    }
}

/// The suggestions for a project's violations: critical then high module
/// advice, then cycles, then naming.
pub open spec fn suggestions_for(project: Seq<char>, vs: Seq<Violation>)
    -> Seq<(Seq<char>, Option<usize>, Seq<char>, Seq<char>, SuggestionSeverity, Seq<char>)> {
    band_advice(module_tally(vs), SuggestionSeverity::Critical) + band_advice(module_tally(vs), SuggestionSeverity::High)
        + cycle_advice(project, rule_count(vs, "circular_dependency"@)) + naming_advice(project, rule_count(vs, "module_naming"@))
}

/// The modules of a tally are distinct.
proof fn lemma_tally_distinct(vs: Seq<Violation>)
    ensures
        forall|a: int, b: int| 0 <= a < b < module_tally(vs).len() ==> module_tally(vs)[a].0 != module_tally(vs)[b].0,
    decreases vs.len(),
{
    if vs.len() > 0 {
        lemma_tally_distinct(vs.drop_last());
        let t = module_tally(vs.drop_last());
        let v = vs.last();
        if v.rule@ == "layer_dependency"@ {
            if exists|k: int| 0 <= k < t.len() && t[k].0 == v.from_module@ {
                let k = choose|k: int| 0 <= k < t.len() && t[k].0 == v.from_module@;
                let t2 = t.update(k, (t[k].0, t[k].1 + 1));
                assert forall|a: int, b: int| 0 <= a < b < t2.len() implies t2[a].0 != t2[b].0 by {
                    assert(t2[a].0 == t[a].0 && t2[b].0 == t[b].0);
                }
            } else {
                let t2 = t.push((v.from_module@, 1nat));
                assert forall|a: int, b: int| 0 <= a < b < t2.len() implies t2[a].0 != t2[b].0 by {
                    if b == t.len() {
                        assert(t2[a].0 == t[a].0);
                    }
                }
            }
        }
    }
}

pub open spec fn sep_line() -> Seq<char> {
    "──────────────────────────────────────────────────────────────\n"@
}

/// The lines of one change.
pub open spec fn change_text(c: FixChange) -> Seq<char> {
    (if c.success { "✅"@ } else { "❌"@ }) + " "@ + c.file@ + ":"@ + decimal(c.line as nat) + " ["@ + fix_type_label(c.fix_type)
        + "]\n"@ + "   "@ + c.description@ + "\n"@ + "   - 原: "@ + trim(c.old_content@) + "\n"@ + "   + 新: "@
        + trim(c.new_content@) + "\n"@ + "\n"@
}

pub open spec fn changes_text(cs: Seq<FixChange>) -> Seq<char>
    decreases cs.len(),
{
    if cs.len() == 0 { Seq::empty() } else { changes_text(cs.drop_last()) + change_text(cs.last()) }
}

/// The lines of suggestion number `n` (from 1).
pub open spec fn suggestion_text(n: nat, s: FixSuggestion) -> Seq<char> {
    "  "@ + decimal(n) + ". "@ + suggestion_label(s.severity) + " - "@ + s.title@ + "\n"@ + "     "@ + s.description@ + "\n"@
        + "     预估工作量: "@ + s.estimated_effort@ + "\n"@ + "\n"@
}

pub open spec fn suggestions_text(ss: Seq<FixSuggestion>) -> Seq<char>
    decreases ss.len(),
{
    if ss.len() == 0 { Seq::empty() } else { suggestions_text(ss.drop_last()) + suggestion_text(ss.len(), ss.last()) }
}

/// The text of a repair run.
pub open spec fn result_text(r: FixResult) -> Seq<char> {
    "\n🔧 架构自动修复结果\n"@ + "════════════════════════════════════════════════════════════════\n\n"@
        + "✅ 已修复: "@ + decimal(r.fixed as nat) + " 个违规\n"@
        + "⏭️  跳过: "@ + decimal(r.skipped as nat) + " 个（无法自动修复）\n"@
        + "❌ 失败: "@ + decimal(r.failed as nat) + " 个\n"@
        + changes_section(r.changes@) + suggestions_section(r.suggestions@)
        + sep_line() + "💡 提示: 部分违规需要手动修复，建议优先处理严重级别高的建议。\n"@
}

fn push_change(o: &mut String, c: &FixChange)
    ensures
        final(o)@ == old(o)@ + change_text(*c),
{
    let ghost start = o@;
    push_str(o, if c.success { "✅" } else { "❌" });
    push_str(o, " ");
    push_str(o, c.file.as_str());
    push_str(o, ":");
    push_decimal(o, c.line);
    push_str(o, " [");
    push_str(o, c.fix_type.label());
    push_str(o, "]\n");
    push_str(o, "   ");
    push_str(o, c.description.as_str());
    push_str(o, "\n");
    push_str(o, "   - 原: ");
    let a = trimmed(c.old_content.as_str());
    push_chars(o, a.as_slice());
    push_str(o, "\n");
    push_str(o, "   + 新: ");
    let b = trimmed(c.new_content.as_str());
    push_chars(o, b.as_slice());
    push_str(o, "\n");
    push_str(o, "\n");
    assert(o@ =~= start + change_text(*c));
}

fn push_suggestion(o: &mut String, n: usize, s: &FixSuggestion)
    ensures
        final(o)@ == old(o)@ + suggestion_text(n as nat, *s),
{
    let ghost start = o@;
    push_str(o, "  ");
    push_decimal(o, n);
    push_str(o, ". ");
    push_str(o, s.severity.label());
    push_str(o, " - ");
    push_str(o, s.title.as_str());
    push_str(o, "\n");
    push_str(o, "     ");
    push_str(o, s.description.as_str());
    push_str(o, "\n");
    push_str(o, "     预估工作量: ");
    push_str(o, s.estimated_effort.as_str());
    push_str(o, "\n");
    push_str(o, "\n");
    assert(o@ =~= start + suggestion_text(n as nat, *s));
}

pub open spec fn changes_section(cs: Seq<FixChange>) -> Seq<char> {
    if cs.len() == 0 { Seq::empty() } else { "\n📋 变更详情:\n"@ + sep_line() + "\n"@ + changes_text(cs) }
}

pub open spec fn suggestions_section(ss: Seq<FixSuggestion>) -> Seq<char> {
    if ss.len() == 0 { Seq::empty() } else { "\n💡 改进建议:\n"@ + sep_line() + "\n"@ + suggestions_text(ss) }
}

fn push_changes(o: &mut String, cs: &Vec<FixChange>)
    ensures
        final(o)@ == old(o)@ + changes_section(cs@),
{
    let ghost start = o@;
    if cs.len() > 0 {
        push_str(o, "\n📋 变更详情:\n");
        push_str(o, "──────────────────────────────────────────────────────────────\n");
        push_str(o, "\n");
        let ghost m = o@;
        for i in 0..cs.len()
            invariant
                o@ == m + changes_text(cs@.take(i as int)),
        {
            push_change(o, &cs[i]);
            assert(cs@.take(i + 1).drop_last() =~= cs@.take(i as int));
        }
        assert(cs@.take(cs@.len() as int) =~= cs@);
    }
    assert(o@ =~= start + changes_section(cs@));
}

fn push_suggestions(o: &mut String, ss: &Vec<FixSuggestion>)
    ensures
        final(o)@ == old(o)@ + suggestions_section(ss@),
{
    let ghost start = o@;
    if ss.len() > 0 {
        push_str(o, "\n💡 改进建议:\n");
        push_str(o, "──────────────────────────────────────────────────────────────\n");
        push_str(o, "\n");
        let ghost m = o@;
        for i in 0..ss.len()
            invariant
                o@ == m + suggestions_text(ss@.take(i as int)),
        {
            push_suggestion(o, i + 1, &ss[i]);
            assert(ss@.take(i + 1).drop_last() =~= ss@.take(i as int));
        }
        assert(ss@.take(ss@.len() as int) =~= ss@);
    }
    assert(o@ =~= start + suggestions_section(ss@));
}

impl ArchitectureFixer {
    /// The text of a repair run.
    pub fn format_result(&self, result: &FixResult) -> (r: String)
        ensures
            r@ == result_text(*result),
    {
        let mut o = owned("\n🔧 架构自动修复结果\n");
        push_str(&mut o, "════════════════════════════════════════════════════════════════\n\n");
        push_str(&mut o, "✅ 已修复: ");
        push_decimal(&mut o, result.fixed);
        push_str(&mut o, " 个违规\n");
        push_str(&mut o, "⏭️  跳过: ");
        push_decimal(&mut o, result.skipped);
        push_str(&mut o, " 个（无法自动修复）\n");
        push_str(&mut o, "❌ 失败: ");
        push_decimal(&mut o, result.failed);
        push_str(&mut o, " 个\n");
        push_changes(&mut o, &result.changes);
        push_suggestions(&mut o, &result.suggestions);
        push_str(&mut o, "──────────────────────────────────────────────────────────────\n");
        push_str(&mut o, "💡 提示: 部分违规需要手动修复，建议优先处理严重级别高的建议。\n");
        assert(o@ =~= result_text(*result));
        o
    }
}

/// Changes made, in order.
/// The text of a file whose line `line` (counted from 1) is replaced by
/// `new_line`: its lines joined by line breaks, or `None` where the file has
/// no such line.
pub open spec fn replaced_text(content: Seq<char>, line: nat, new_line: Seq<char>) -> Option<Seq<char>> {
    let ls = lines(content);
    if 1 <= line && line <= ls.len() {
        Some(join(ls.update(line - 1, new_line), "\n"@))
    } else {
        None
    }
}

proof fn lemma_join_step(xs: Seq<Seq<char>>, i: int, sep: Seq<char>)
    requires
        1 <= i < xs.len(),
    ensures
        join(xs.take(i + 1), sep) == join(xs.take(i), sep) + sep + xs[i],
{
    assert(xs.take(i + 1).drop_last() =~= xs.take(i));
}

/// Replaces line `line` (counted from 1) of `content` by `new_line`; the
/// lines are joined again by line breaks. `None` where there is no such line.
pub fn replace_line(content: &str, line: usize, new_line: &str) -> (r: Option<String>)
    ensures
        match r {
            Some(t) => replaced_text(content@, line as nat, new_line@) == Some(t@),
            None => replaced_text(content@, line as nat, new_line@) is None,
        },
{
    let ls = str_lines(content);
    let n = ls.len();
    if line == 0 || line > n {
        return None;
    }
    let ghost target = views(ls@).update(line - 1, new_line@);
    let mut out = String::new();
    for i in 0..n
        invariant
            n == ls@.len(),
            1 <= line <= n,
            target == views(ls@).update(line - 1, new_line@),
            out@ == join(target.take(i as int), "\n"@),
    {
        let ghost before = out@;
        if i > 0 {
            push_str(&mut out, "\n");
        }
        if i + 1 == line {
            push_str(&mut out, new_line);
        } else {
            push_chars(&mut out, ls[i].as_slice());
        }
        proof {
            if i > 0 {
                assert(out@ =~= before + "\n"@ + target[i as int]);
            } else {
                assert(out@ =~= before + target[i as int]);
            }
            if i > 0 {
                lemma_join_step(target, i as int, "\n"@);
                assert(out@ =~= join(target.take(i as int), "\n"@) + "\n"@ + target[i as int]);
            } else {
                assert(target.take(1) =~= seq![target[0]]);
                assert(out@ =~= target[0]);
            }
        }
    }
    assert(target.take(n as int) =~= target);
    Some(out)
}

/// The changes with each marked as made.
pub open spec fn as_made(cs: Seq<FixChange>) -> Seq<FixChange> {
    cs.map_values(|c: FixChange| FixChange { success: true, ..c })
}

pub open spec fn made(a: Seq<CellResult<Option<FixChange>>>) -> Seq<FixChange>
    decreases a.len(),
{
    if a.len() == 0 {
        Seq::empty()
    } else {
        match a.last() {
            Ok(Some(c)) => made(a.drop_last()).push(c),
            _ => made(a.drop_last()),
        }
    }
}

pub open spec fn attempt_count(a: Seq<CellResult<Option<FixChange>>>, p: spec_fn(FixChange) -> bool) -> nat
    decreases a.len(),
{
    if a.len() == 0 {
        0
    } else {
        attempt_count(a.drop_last(), p) + match a.last() {
            Ok(Some(c)) => if p(c) { 1nat } else { 0nat },
            _ => 0nat,
        }
    }
}

pub open spec fn skip_count(a: Seq<CellResult<Option<FixChange>>>) -> nat
    decreases a.len(),
{
    if a.len() == 0 { 0 } else { skip_count(a.drop_last()) + if a.last() == Ok::<Option<FixChange>, crate::errors::CellError>(None) { 1nat } else { 0nat } }
}

pub open spec fn error_count(a: Seq<CellResult<Option<FixChange>>>) -> nat
    decreases a.len(),
{
    if a.len() == 0 { 0 } else { error_count(a.drop_last()) + if a.last() is Err { 1nat } else { 0nat } }
}

/// Each attempt of a repair run is counted once: as a change made, as
/// skipped, or as failed.
pub proof fn law_every_attempt_counted(a: Seq<CellResult<Option<FixChange>>>)
    ensures
        made(a).len() + skip_count(a) + error_count(a) == a.len(),
    decreases a.len(),
{
    if a.len() > 0 {
        law_every_attempt_counted(a.drop_last());
    }
}

/// With one attempt per violation, a repair run accounts for each violation
/// once: as a change made, as skipped, or as failed.
pub proof fn law_each_violation_accounted(vs: Seq<Violation>, a: Seq<CellResult<Option<FixChange>>>)
    requires
        a.len() == vs.len(),
    ensures
        made(a).len() + skip_count(a) + error_count(a) == vs.len(),
{
    law_every_attempt_counted(a);
}

proof fn lemma_nothing_counted(a: Seq<CellResult<Option<FixChange>>>, p: spec_fn(FixChange) -> bool)
    requires
        forall|c: FixChange| !#[trigger] p(c),
    ensures
        attempt_count(a, p) == 0,
    decreases a.len(),
{
    if a.len() > 0 {
        lemma_nothing_counted(a.drop_last(), p);
    }
}

proof fn lemma_rule_count_prefix(vs: Seq<Violation>, rule: Seq<char>, k: int)
    requires
        0 <= k <= vs.len(),
    ensures
        rule_count(vs.take(k), rule) <= rule_count(vs, rule),
    decreases vs.len() - k,
{
    if k < vs.len() {
        lemma_rule_count_prefix(vs, rule, k + 1);
        assert(vs.take(k + 1).drop_last() =~= vs.take(k));
    } else {
        assert(vs.take(k) =~= vs);
    }
}

impl Default for ArchitectureFixer {
    fn default() -> (r: Self) {
        ArchitectureFixer
    }
}

} // verus!
