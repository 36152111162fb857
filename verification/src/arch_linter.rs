//! Rule-based architecture linter over the sources of a layered project.
use vstd::prelude::*;
use crate::text::{count_char, first_index_of, word_start, word_start_exec, find_char_from, count_char_in,
    sum_lens, lemma_sum_lens_take, lemma_lines_sum_lens, lemma_count_char_le, lemma_first_index_of_bounds, push_chars,
    contains, starts_with, trim, replace_char, owned, str_eq, has_text, begins, to_chars, replace_char_in,
    trim_chars, push_str, views, lines, count_matches, decimal, push_decimal, count_in, first_line_where, contains_any,
    str_views, first_line_with_any, lemma_count_matches_le, text_fits, split_lines};

verus! {

/// How serious a lint finding is.
#[derive(Clone, Copy, Debug, PartialEq, Eq, Structural)]
pub enum LintSeverity {
    Error,
    Warning,
    Info,
}

/// What a lint rule is about.
#[derive(Clone, Copy, Debug, PartialEq, Eq, Structural)]
pub enum LintCategory {
    Layering,
    Complexity,
    Naming,
    Testing,
    Coupling,
    BestPractice,
    Invariant,
}

/// One finding of the linter.
#[derive(Debug, Clone)]
pub struct LintViolation {
    pub rule_id: String,
    pub category: LintCategory,
    pub severity: LintSeverity,
    pub file: String,
    pub line: usize,
    pub message: String,
    pub suggestion: Option<String>,
}

/// A finding, with its texts as character sequences.
pub struct ViolationView {
    pub rule_id: Seq<char>,
    pub category: LintCategory,
    pub severity: LintSeverity,
    pub file: Seq<char>,
    pub line: nat,
    pub message: Seq<char>,
    pub suggestion: Option<Seq<char>>,
}

pub open spec fn opt_view(o: Option<String>) -> Option<Seq<char>> {
    match o {
        Some(s) => Some(s@),
        None => None,
    }
}

impl View for LintViolation {
    type V = ViolationView;

    open spec fn view(&self) -> ViolationView {
        ViolationView {
            rule_id: self.rule_id@,
            category: self.category,
            severity: self.severity,
            file: self.file@,
            line: self.line as nat,
            message: self.message@,
            suggestion: opt_view(self.suggestion),
        }
    }
}

/// A lint rule of the catalogue.
#[derive(Debug, Clone)]
pub struct LintRule {
    pub id: String,
    pub name: String,
    pub category: LintCategory,
    pub severity: LintSeverity,
    pub description: String,
    pub enabled: bool,
}

/// A rule, with its texts as character sequences.
pub struct RuleView {
    pub id: Seq<char>,
    pub name: Seq<char>,
    pub category: LintCategory,
    pub severity: LintSeverity,
    pub description: Seq<char>,
    pub enabled: bool,
}

impl View for LintRule {
    type V = RuleView;

    open spec fn view(&self) -> RuleView {
        RuleView {
            id: self.id@,
            name: self.name@,
            category: self.category,
            severity: self.severity,
            description: self.description@,
            enabled: self.enabled,
        }
    }
}

pub open spec fn rule_views(rs: Seq<LintRule>) -> Seq<RuleView> {
    rs.map_values(|r: LintRule| r@)
}

pub open spec fn violation_views(vs: Seq<LintViolation>) -> Seq<ViolationView> {
    vs.map_values(|v: LintViolation| v@)
}

pub open spec fn rule_view(id: Seq<char>, name: Seq<char>, category: LintCategory, severity: LintSeverity, description: Seq<char>) -> RuleView {
    RuleView { id, name, category, severity, description, enabled: true }
}

/// The built-in rule catalogue, all rules enabled.
pub open spec fn default_rules_spec() -> Seq<RuleView> {
    seq![
        rule_view("L001"@, "domain-no-application-dep"@, LintCategory::Layering, LintSeverity::Error, "Domain 层不能 import Application 层"@),
        rule_view("L002"@, "domain-no-adapters-dep"@, LintCategory::Layering, LintSeverity::Error, "Domain 层不能 import Adapters 层"@),
        rule_view("L003"@, "domain-no-interfaces-dep"@, LintCategory::Layering, LintSeverity::Error, "Domain 层不能 import Interfaces 层"@),
        rule_view("L004"@, "application-no-interfaces-dep"@, LintCategory::Layering, LintSeverity::Error, "Application 层不能 import Interfaces 层"@),
        rule_view("L005"@, "application-no-adapters-dep"@, LintCategory::Layering, LintSeverity::Error, "Application 层不能直接依赖 Adapters，必须通过 Port"@),
        rule_view("L006"@, "adapters-no-interfaces-dep"@, LintCategory::Layering, LintSeverity::Error, "Adapters 层不能 import Interfaces 层"@),
        rule_view("L007"@, "no-circular-dependency"@, LintCategory::Coupling, LintSeverity::Error, "模块之间不能有循环依赖"@),
        rule_view("L008"@, "port-must-be-trait"@, LintCategory::Layering, LintSeverity::Error, "Port 必须是 trait，不能有实现"@),
        rule_view("L009"@, "usecase-in-application"@, LintCategory::Layering, LintSeverity::Warning, "UseCase 必须在 application 层"@),
        rule_view("C001"@, "function-too-long"@, LintCategory::Complexity, LintSeverity::Warning, "函数长度不能超过 80 行"@),
        rule_view("C002"@, "cyclomatic-complexity"@, LintCategory::Complexity, LintSeverity::Warning, "函数圈复杂度不能超过 15"@),
        rule_view("C003"@, "nesting-too-deep"@, LintCategory::Complexity, LintSeverity::Warning, "嵌套深度不能超过 4 层"@),
        rule_view("C004"@, "too-many-params"@, LintCategory::Complexity, LintSeverity::Warning, "函数参数不能超过 6 个"@),
        rule_view("C005"@, "struct-too-many-fields"@, LintCategory::Complexity, LintSeverity::Warning, "结构体字段不能超过 15 个"@),
        rule_view("N001"@, "port-naming"@, LintCategory::Naming, LintSeverity::Warning, "Port 接口使用名词或 -er 后缀"@),
        rule_view("N002"@, "usecase-naming"@, LintCategory::Naming, LintSeverity::Info, "UseCase 使用动词 + 名词命名"@),
        rule_view("N003"@, "adapter-naming"@, LintCategory::Naming, LintSeverity::Warning, "Adapter 命名包含技术栈名 + Port 名"@),
        rule_view("N004"@, "test-naming"@, LintCategory::Naming, LintSeverity::Info, "测试函数名清晰表达测试意图"@),
        rule_view("T001"@, "core-module-test-coverage"@, LintCategory::Testing, LintSeverity::Warning, "核心模块测试覆盖率建议 ≥ 85%"@),
        rule_view("T002"@, "domain-test-coverage"@, LintCategory::Testing, LintSeverity::Warning, "Domain 层测试覆盖率建议 ≥ 95%"@),
        rule_view("T003"@, "public-function-has-test"@, LintCategory::Testing, LintSeverity::Info, "每个 Public 函数至少有一个测试"@),
        rule_view("B001"@, "no-unwrap"@, LintCategory::BestPractice, LintSeverity::Warning, "避免使用 unwrap()/expect()，改用错误处理"@),
        rule_view("B002"@, "no-unsafe"@, LintCategory::BestPractice, LintSeverity::Warning, "避免使用 unsafe 代码块"@),
        rule_view("B003"@, "no-todo"@, LintCategory::BestPractice, LintSeverity::Info, "避免遗留 todo!() / unimplemented!()"@),
        rule_view("B004"@, "module-docs"@, LintCategory::BestPractice, LintSeverity::Info, "公开模块应有文档注释"@),
        rule_view("INV01"@, "inward-dependency"@, LintCategory::Invariant, LintSeverity::Error, "不变量1：依赖向内不变，外层只能依赖内层"@),
        rule_view("INV02"@, "port-contract-stability"@, LintCategory::Invariant, LintSeverity::Warning, "不变量2：端口契约不变，Port 接口语义应稳定"@),
        rule_view("INV03"@, "isolation-no-shared-state"@, LintCategory::Invariant, LintSeverity::Warning, "不变量3：隔离性不变，Cell 间不共享内部可变状态"@),
        rule_view("INV04"@, "event-contract-compatibility"@, LintCategory::Invariant, LintSeverity::Warning, "不变量4：事件契约不变，事件 Schema 应向前兼容"@),
        rule_view("INV05"@, "testability-core-independent"@, LintCategory::Invariant, LintSeverity::Warning, "不变量5：可测试性不变，核心逻辑应可独立测试"@),
        rule_view("INV06"@, "deletability-modular-design"@, LintCategory::Invariant, LintSeverity::Info, "不变量6：可删除性不变，功能应可整体删除"@)
    ]
}

fn mk_rule(id: &str, name: &str, category: LintCategory, severity: LintSeverity, description: &str) -> (r: LintRule)
    ensures
        r@ == rule_view(id@, name@, category, severity, description@),
{
    LintRule {
        id: owned(id),
        name: owned(name),
        category,
        severity,
        description: owned(description),
        enabled: true,
    }
}

/// `id` names a rule of `rules`, and the first such rule is enabled.
pub open spec fn rule_enabled(rules: Seq<RuleView>, id: Seq<char>) -> bool
    decreases rules.len(),
{
    if rules.len() == 0 {
        false
    } else if rules[0].id == id {
        rules[0].enabled
    } else {
        rule_enabled(rules.drop_first(), id)
    }
}

/// The architectural layers of a project, from the inside out.
#[derive(Clone, Copy, Debug, PartialEq, Eq, Structural)]
pub enum Layer {
    Domain,
    Application,
    Adapters,
    Interfaces,
}

pub open spec fn layer_name(l: Layer) -> Seq<char> {
    match l {
        Layer::Domain => "domain"@,
        Layer::Application => "application"@,
        Layer::Adapters => "adapters"@,
        Layer::Interfaces => "interfaces"@,
    }
}

/// The layer a source path (relative to `src/` or not) lies in.
pub open spec fn layer_of_path(path: Seq<char>) -> Option<Layer> {
    let n = replace_char(path, '\\', '/');
    if contains(n, "src/domain/"@) || starts_with(n, "domain/"@) {
        Some(Layer::Domain)
    } else if contains(n, "src/application/"@) || starts_with(n, "application/"@) {
        Some(Layer::Application)
    } else if contains(n, "src/adapters/"@) || starts_with(n, "adapters/"@) {
        Some(Layer::Adapters)
    } else if contains(n, "src/interfaces/"@) || starts_with(n, "interfaces/"@) {
        Some(Layer::Interfaces)
    } else {
        None
    }
}

/// The layer a `use crate::...` line imports from.
pub open spec fn imported_layer(t: Seq<char>) -> Option<Layer> {
    if contains(t, "::domain"@) || contains(t, "crate::domain"@) {
        Some(Layer::Domain)
    } else if contains(t, "::application"@) || contains(t, "crate::application"@) {
        Some(Layer::Application)
    } else if contains(t, "::adapters"@) || contains(t, "crate::adapters"@) {
        Some(Layer::Adapters)
    } else if contains(t, "::interfaces"@) || contains(t, "crate::interfaces"@) {
        Some(Layer::Interfaces)
    } else {
        None
    }
}

/// The forbidden layer dependencies: rule id and message.
pub open spec fn banned_rule(from: Layer, to: Layer) -> Option<(Seq<char>, Seq<char>)> {
    match (from, to) {
        (Layer::Domain, Layer::Application) => Some(("L001"@, "Domain 层不能 import Application 层"@)),
        (Layer::Domain, Layer::Adapters) => Some(("L002"@, "Domain 层不能 import Adapters 层"@)),
        (Layer::Domain, Layer::Interfaces) => Some(("L003"@, "Domain 层不能 import Interfaces 层"@)),
        (Layer::Application, Layer::Interfaces) => Some(("L004"@, "Application 层不能 import Interfaces 层"@)),
        (Layer::Application, Layer::Adapters) => Some(("L005"@, "Application 层不能直接依赖 Adapters，必须通过 Port"@)),
        (Layer::Adapters, Layer::Interfaces) => Some(("L006"@, "Adapters 层不能 import Interfaces 层"@)),
        _ => None,
    }
}

/// The finding for a forbidden dependency from `from` to `to` at `line` of `file`.
pub open spec fn banned_dep_violations(rules: Seq<RuleView>, from: Layer, to: Layer, file: Seq<char>, line: nat) -> Seq<ViolationView> {
    match banned_rule(from, to) {
        Some((id, msg)) => if rule_enabled(rules, id) {
            seq![ViolationView {
                rule_id: id,
                category: LintCategory::Layering,
                severity: LintSeverity::Error,
                file,
                line,
                message: msg,
                suggestion: Some("移除 "@ + layer_name(from) + " → "@ + layer_name(to) + " 的依赖"@),
            }]
        } else {
            Seq::empty()
        },
        None => Seq::empty(),
    }
}

/// Findings of the layering check on the line `line` (numbered from 0) of a file in `layer`.
pub open spec fn layer_line_violations(rules: Seq<RuleView>, file: Seq<char>, layer: Option<Layer>, idx: nat, line: Seq<char>) -> Seq<ViolationView> {
    let t = trim(line);
    if !(starts_with(t, "use "@) || starts_with(t, "pub use "@)) || !contains(t, "crate::"@) {
        Seq::empty()
    } else {
        match (layer, imported_layer(t)) {
            (Some(from), Some(to)) => banned_dep_violations(rules, from, to, file, idx + 1),
            _ => Seq::empty(),
        }
    }
}

/// Findings of the layering check on the first `n` lines.
pub open spec fn layer_violations_upto(rules: Seq<RuleView>, file: Seq<char>, ls: Seq<Seq<char>>, n: nat) -> Seq<ViolationView>
    decreases n,
{
    if n == 0 || n > ls.len() {
        Seq::empty()
    } else {
        layer_violations_upto(rules, file, ls, (n - 1) as nat)
            + layer_line_violations(rules, file, layer_of_path(file), (n - 1) as nat, ls[n - 1])
    }
}

/// The name of a layer.
pub fn layer_str(l: Layer) -> (r: &'static str)
    ensures
        r@ == layer_name(l),
{
    match l {
        Layer::Domain => "domain",
        Layer::Application => "application",
        Layer::Adapters => "adapters",
        Layer::Interfaces => "interfaces",
    }
}

/// A finding built from its parts.
pub open spec fn mkv(rule_id: Seq<char>, category: LintCategory, severity: LintSeverity, file: Seq<char>, line: nat, message: Seq<char>, suggestion: Option<Seq<char>>) -> ViolationView {
    ViolationView { rule_id, category, severity, file, line, message, suggestion }
}

/// The trimmed line is not a comment line.
pub open spec fn not_comment(t: Seq<char>) -> bool {
    !starts_with(t, "//"@) && !starts_with(t, "*"@)
}

/// Findings of the best-practice checks (B001, B003, B002) on one line.
pub open spec fn naming_line_violations(rules: Seq<RuleView>, file: Seq<char>, idx: nat, line: Seq<char>) -> Seq<ViolationView> {
    let t = trim(line);
    (if rule_enabled(rules, "B001"@) && (contains(t, ".unwrap()"@) || contains(t, ".expect("@)) && not_comment(t) {
        seq![mkv("B001"@, LintCategory::BestPractice, LintSeverity::Warning, file, idx + 1,
            "避免使用 unwrap()/expect()，改用适当的错误处理"@, Some("使用 match 或 ? 运算符处理错误"@))]
    } else {
        Seq::empty()
    }) + (if rule_enabled(rules, "B003"@) && (contains(t, "todo!"@) || contains(t, "unimplemented!"@)) && not_comment(t) {
        seq![mkv("B003"@, LintCategory::BestPractice, LintSeverity::Info, file, idx + 1,
            "存在 todo!() 或 unimplemented!()，请尽快实现"@, None)]
    } else {
        Seq::empty()
    }) + (if rule_enabled(rules, "B002"@) && contains(t, "unsafe "@) && not_comment(t) {
        seq![mkv("B002"@, LintCategory::BestPractice, LintSeverity::Warning, file, idx + 1,
            "避免使用 unsafe 代码块"@, Some("考虑使用安全的抽象替代 unsafe"@))]
    } else {
        Seq::empty()
    })
}

/// Findings of the best-practice checks on the first `n` lines.
pub open spec fn naming_violations_upto(rules: Seq<RuleView>, file: Seq<char>, ls: Seq<Seq<char>>, n: nat) -> Seq<ViolationView>
    decreases n,
{
    if n == 0 || n > ls.len() {
        Seq::empty()
    } else {
        naming_violations_upto(rules, file, ls, (n - 1) as nat) + naming_line_violations(rules, file, (n - 1) as nat, ls[n - 1])
    }
}

/// Line number (from 1) of the first line holding one of `ps`, or 1.
pub open spec fn first_line_number(content: Seq<char>, ps: Seq<Seq<char>>) -> nat {
    match first_line_where(lines(content), |l: Seq<char>| contains_any(l, ps)) {
        Some(i) => i + 1,
        None => 1,
    }
}

/// INV02: a port file with more than ten `fn ` is flagged.
#[verifier::opaque]
pub open spec fn port_stability_violations(file: Seq<char>, content: Seq<char>) -> Seq<ViolationView> {
    let methods = count_matches(content, "fn "@);
    if !(contains(file, "ports/"@) || contains(file, "port"@)) || count_matches(content, "pub trait"@) == 0 || methods <= 10 {
        Seq::empty()
    } else {
        seq![mkv("INV02"@, LintCategory::Invariant, LintSeverity::Warning, file, 1,
            "Port 接口方法过多 ("@ + decimal(methods) + " 个)，可能影响契约稳定性"@,
            Some("考虑拆分接口，遵循接口隔离原则"@))]
    }
}

pub open spec fn static_patterns() -> Seq<Seq<char>> {
    seq!["static mut"@, "static ref"@]
}

/// INV03: global mutable state is flagged at its first line.
#[verifier::opaque]
pub open spec fn isolation_violations(file: Seq<char>, content: Seq<char>) -> Seq<ViolationView> {
    if contains(content, "static mut"@) || contains(content, "static ref"@) {
        seq![mkv("INV03"@, LintCategory::Invariant, LintSeverity::Warning, file, first_line_number(content, static_patterns()),
            "检测到全局可变状态，可能破坏隔离性"@,
            Some("考虑使用依赖注入或线程局部存储，避免共享可变状态"@))]
    } else {
        Seq::empty()
    }
}

/// INV04: event structs without any `Option<` field are noted.
#[verifier::opaque]
pub open spec fn event_violations(file: Seq<char>, content: Seq<char>) -> Seq<ViolationView> {
    if (contains(file, "event"@) || contains(file, "Event"@)) && count_matches(content, "pub struct"@) > 0 && !contains(content, "Option<"@) {
        seq![mkv("INV04"@, LintCategory::Invariant, LintSeverity::Info, file, 1,
            "事件结构体建议使用 Option 字段以支持向前兼容"@,
            Some("新增字段使用 Option<T> 包装，默认值为 None，确保旧版本消费者不会因新字段而失败"@))]
    } else {
        Seq::empty()
    }
}

pub open spec fn framework_patterns() -> Seq<Seq<char>> {
    seq!["reqwest::"@, "tokio::"@, "sqlx::"@, "diesel::"@]
}

/// INV05: domain code that names an outside framework is flagged.
#[verifier::opaque]
pub open spec fn testability_violations(file: Seq<char>, content: Seq<char>) -> Seq<ViolationView> {
    if layer_of_path(file) == Some(Layer::Domain) && contains_any(content, framework_patterns()) {
        seq![mkv("INV05"@, LintCategory::Invariant, LintSeverity::Warning, file, first_line_number(content, framework_patterns()),
            "Domain 层不应直接依赖外部框架，影响可测试性"@,
            Some("通过 Port 接口抽象外部依赖，在 Adapters 层实现"@))]
    } else {
        Seq::empty()
    }
}

/// Public items of a file: `pub fn `, `pub struct ` and `pub trait `.
pub open spec fn pub_item_count(content: Seq<char>) -> nat {
    count_matches(content, "pub fn "@) + count_matches(content, "pub struct "@) + count_matches(content, "pub trait "@)
}

/// INV06: wide modules with many internal imports are noted.
#[verifier::opaque]
pub open spec fn deletability_violations(file: Seq<char>, content: Seq<char>) -> Seq<ViolationView> {
    let items = pub_item_count(content);
    let imports = count_matches(content, "use crate::"@);
    if items > 15 && imports > 10 {
        seq![mkv("INV06"@, LintCategory::Invariant, LintSeverity::Info, file, 1,
            "模块公共接口较多 ("@ + decimal(items) + ") 且内部依赖广泛 ("@ + decimal(imports) + ")，可能影响可删除性"@,
            Some("考虑按功能拆分模块，降低耦合度，使功能可以独立删除"@))]
    } else {
        Seq::empty()
    }
}

/// Findings of the invariant checks on one file.
pub open spec fn invariant_violations(rules: Seq<RuleView>, file: Seq<char>, content: Seq<char>) -> Seq<ViolationView> {
    (if rule_enabled(rules, "INV02"@) { port_stability_violations(file, content) } else { Seq::empty() })
    + (if rule_enabled(rules, "INV03"@) { isolation_violations(file, content) } else { Seq::empty() })
    + (if rule_enabled(rules, "INV04"@) { event_violations(file, content) } else { Seq::empty() })
    + (if rule_enabled(rules, "INV05"@) { testability_violations(file, content) } else { Seq::empty() })
    + (if rule_enabled(rules, "INV06"@) { deletability_violations(file, content) } else { Seq::empty() })
}

fn check_port_stability(file: &str, content: &[char], violations: &mut Vec<LintViolation>)
    ensures
        violation_views(final(violations)@) == violation_views(old(violations)@) + port_stability_violations(file@, content@),
{
    proof {
        reveal(port_stability_violations);
    }
    let ghost v0 = violation_views(violations@);
    let fc = to_chars(file);
    let fc = fc.as_slice();
    let methods = count_in(content, "fn ");
    if (has_text(fc, "ports/") || has_text(fc, "port")) && count_in(content, "pub trait") != 0 && methods > 10 {
        let mut msg = owned("Port 接口方法过多 (");
        push_decimal(&mut msg, methods);
        push_str(&mut msg, " 个)，可能影响契约稳定性");
        violations.push(LintViolation {
            rule_id: owned("INV02"),
            category: LintCategory::Invariant,
            severity: LintSeverity::Warning,
            file: owned(file),
            line: 1,
            message: msg,
            suggestion: Some(owned("考虑拆分接口，遵循接口隔离原则")),
        });
    }
    assert(violation_views(violations@) =~= v0 + port_stability_violations(file@, content@));
}

fn check_isolation(file: &str, content: &[char], ls: &Vec<Vec<char>>, violations: &mut Vec<LintViolation>)
    requires
        text_fits(content@),
        views(ls@) == lines(content@),
    ensures
        violation_views(final(violations)@) == violation_views(old(violations)@) + isolation_violations(file@, content@),
{
    proof {
        reveal(isolation_violations);
    }
    let ghost v0 = violation_views(violations@);
    let ghost c = content@;
    proof {
        crate::text::lemma_lines_len(c);
    }
    if has_text(content, "static mut") || has_text(content, "static ref") {
        let pats: [&str; 2] = ["static mut", "static ref"];
        assert(str_views(pats@) =~= static_patterns());
        assert((|l: Seq<char>| contains_any(l, str_views(pats@)))
            =~= (|l: Seq<char>| contains_any(l, static_patterns())));
        let found = first_line_with_any(ls, &pats);
        let line = match found {
            Some(i) => i + 1,
            None => 1,
        };
        assert(line as nat == first_line_number(c, static_patterns()));
        violations.push(LintViolation {
            rule_id: owned("INV03"),
            category: LintCategory::Invariant,
            severity: LintSeverity::Warning,
            file: owned(file),
            line,
            message: owned("检测到全局可变状态，可能破坏隔离性"),
            suggestion: Some(owned("考虑使用依赖注入或线程局部存储，避免共享可变状态")),
        });
    }
    assert(violation_views(violations@) =~= v0 + isolation_violations(file@, c));
}

fn check_event_compatibility(file: &str, content: &[char], violations: &mut Vec<LintViolation>)
    ensures
        violation_views(final(violations)@) == violation_views(old(violations)@) + event_violations(file@, content@),
{
    proof {
        reveal(event_violations);
    }
    let ghost v0 = violation_views(violations@);
    let fc = to_chars(file);
    let fc = fc.as_slice();
    if (has_text(fc, "event") || has_text(fc, "Event")) && count_in(content, "pub struct") > 0 && !has_text(content, "Option<") {
        violations.push(LintViolation {
            rule_id: owned("INV04"),
            category: LintCategory::Invariant,
            severity: LintSeverity::Info,
            file: owned(file),
            line: 1,
            message: owned("事件结构体建议使用 Option 字段以支持向前兼容"),
            suggestion: Some(owned("新增字段使用 Option<T> 包装，默认值为 None，确保旧版本消费者不会因新字段而失败")),
        });
    }
    assert(violation_views(violations@) =~= v0 + event_violations(file@, content@));
}

fn check_testability(file: &str, content: &[char], ls: &Vec<Vec<char>>, violations: &mut Vec<LintViolation>)
    requires
        text_fits(content@),
        views(ls@) == lines(content@),
    ensures
        violation_views(final(violations)@) == violation_views(old(violations)@) + testability_violations(file@, content@),
{
    proof {
        reveal(testability_violations);
    }
    let ghost v0 = violation_views(violations@);
    let ghost c = content@;
    proof {
        crate::text::lemma_lines_len(c);
    }
    let pats: [&str; 4] = ["reqwest::", "tokio::", "sqlx::", "diesel::"];
    assert(str_views(pats@) =~= framework_patterns());
    assert((|l: Seq<char>| contains_any(l, str_views(pats@)))
        =~= (|l: Seq<char>| contains_any(l, framework_patterns())));
    let layer = ArchitectureLinter::detect_layer(file);
    if layer == Some(Layer::Domain) && crate::text::has_any(content, &pats) {
        let found = first_line_with_any(ls, &pats);
        let line = match found {
            Some(i) => i + 1,
            None => 1,
        };
        assert(line as nat == first_line_number(c, framework_patterns()));
        violations.push(LintViolation {
            rule_id: owned("INV05"),
            category: LintCategory::Invariant,
            severity: LintSeverity::Warning,
            file: owned(file),
            line,
            message: owned("Domain 层不应直接依赖外部框架，影响可测试性"),
            suggestion: Some(owned("通过 Port 接口抽象外部依赖，在 Adapters 层实现")),
        });
    }
    assert(violation_views(violations@) =~= v0 + testability_violations(file@, c));
}

fn check_deletability(file: &str, content: &[char], violations: &mut Vec<LintViolation>)
    requires
        text_fits(content@),
    ensures
        violation_views(final(violations)@) == violation_views(old(violations)@) + deletability_violations(file@, content@),
{
    proof {
        reveal(deletability_violations);
    }
    let ghost v0 = violation_views(violations@);
    let ghost c = content@;
    proof {
        lemma_count_matches_le(c, "pub fn "@);
        lemma_count_matches_le(c, "pub struct "@);
        lemma_count_matches_le(c, "pub trait "@);
    }
    let items = count_in(content, "pub fn ") + count_in(content, "pub struct ") + count_in(content, "pub trait ");
    let imports = count_in(content, "use crate::");
    if items > 15 && imports > 10 {
        let mut msg = owned("模块公共接口较多 (");
        push_decimal(&mut msg, items);
        push_str(&mut msg, ") 且内部依赖广泛 (");
        push_decimal(&mut msg, imports);
        push_str(&mut msg, ")，可能影响可删除性");
        violations.push(LintViolation {
            rule_id: owned("INV06"),
            category: LintCategory::Invariant,
            severity: LintSeverity::Info,
            file: owned(file),
            line: 1,
            message: msg,
            suggestion: Some(owned("考虑按功能拆分模块，降低耦合度，使功能可以独立删除")),
        });
    }
    assert(violation_views(violations@) =~= v0 + deletability_violations(file@, c));
}

/// Scanner state of the complexity check, between two lines.
pub struct CxState {
    pub in_fn: bool,
    pub start: nat,
    pub name: Seq<char>,
    pub braces: int,
    pub max_nest: nat,
    pub cur_nest: nat,
}

pub open spec fn cx_init() -> CxState {
    CxState { in_fn: false, start: 0, name: Seq::empty(), braces: 0, max_nest: 0, cur_nest: 0 }
}

/// The trimmed line opens a function definition.
pub open spec fn is_fn_header(t: Seq<char>) -> bool {
    (starts_with(t, "fn "@) || starts_with(t, "pub fn "@) || starts_with(t, "async fn "@) || starts_with(t, "pub async fn "@))
        && contains(t, "("@)
}

/// The name of the function a header line defines: the part before `(` of
/// the first word that holds a `(`.
pub open spec fn fn_name_of(t: Seq<char>) -> Seq<char> {
    let k = first_index_of(t, '(');
    t.subrange(word_start(t, k), k)
}

/// The trimmed line holds a control-flow construct.
pub open spec fn is_control(t: Seq<char>) -> bool {
    contains(t, "if "@) || starts_with(t, "else"@) || contains(t, "match "@) || contains(t, "for "@)
        || contains(t, "while "@) || contains(t, "loop {"@)
}

pub open spec fn c004(file: Seq<char>, line: nat, name: Seq<char>, params: nat) -> ViolationView {
    mkv("C004"@, LintCategory::Complexity, LintSeverity::Warning, file, line,
        "函数 `"@ + name + "` 参数过多 ("@ + decimal(params) + ")，建议 ≤ 6 个"@,
        Some("考虑使用结构体或元组合并参数"@))
}

pub open spec fn c001(file: Seq<char>, line: nat, name: Seq<char>, len: nat) -> ViolationView {
    mkv("C001"@, LintCategory::Complexity, LintSeverity::Warning, file, line,
        "函数 `"@ + name + "` 过长 ("@ + decimal(len) + " 行)，建议 ≤ 80 行"@,
        Some("考虑拆分为多个小函数"@))
}

pub open spec fn c003(file: Seq<char>, line: nat, name: Seq<char>, depth: nat) -> ViolationView {
    mkv("C003"@, LintCategory::Complexity, LintSeverity::Warning, file, line,
        "函数 `"@ + name + "` 嵌套过深 ("@ + decimal(depth) + " 层)，建议 ≤ 4 层"@,
        Some("考虑提前返回或提取函数"@))
}

/// One step of the complexity scanner over the trimmed line `t` (numbered from 0).
pub open spec fn cx_step(rules: Seq<RuleView>, file: Seq<char>, st: CxState, i: nat, t: Seq<char>) -> (CxState, Seq<ViolationView>) {
    let hdr = is_fn_header(t) && !st.in_fn;
    let params = count_char(t, ',') + 1;
    let name = fn_name_of(t);
    let v1: Seq<ViolationView> = if hdr && params > 6 && rule_enabled(rules, "C004"@) {
        seq![c004(file, i + 1, name, params)]
    } else {
        Seq::empty()
    };
    let st1 = if hdr {
        CxState { in_fn: true, start: i + 1, name, braces: 0, max_nest: 0, cur_nest: 0 }
    } else {
        st
    };
    if !st1.in_fn {
        (st1, v1)
    } else {
        let opens = count_char(t, '{');
        let closes = count_char(t, '}');
        let cur1 = if is_control(t) { st1.cur_nest + opens } else { st1.cur_nest };
        let max1 = if is_control(t) && cur1 > st1.max_nest { cur1 } else { st1.max_nest };
        let cur2: nat = if cur1 >= closes { (cur1 - closes) as nat } else { 0 };
        let br = st1.braces + opens - closes;
        if br <= 0 && st1.start > 0 {
            let len: nat = (i + 1 - st1.start) as nat;
            let v2: Seq<ViolationView> = (if len > 80 && rule_enabled(rules, "C001"@) {
                seq![c001(file, st1.start, st1.name, len)]
            } else {
                Seq::empty()
            }) + (if max1 > 4 && rule_enabled(rules, "C003"@) {
                seq![c003(file, st1.start, st1.name, max1)]
            } else {
                Seq::empty()
            });
            (CxState { in_fn: false, start: st1.start, name: st1.name, braces: br, max_nest: max1, cur_nest: cur2 }, v1 + v2)
        } else {
            (CxState { in_fn: true, start: st1.start, name: st1.name, braces: br, max_nest: max1, cur_nest: cur2 }, v1)
        }
    }
}

/// The complexity scanner run over the first `n` lines.
pub open spec fn cx_run(rules: Seq<RuleView>, file: Seq<char>, ls: Seq<Seq<char>>, n: nat) -> (CxState, Seq<ViolationView>)
    decreases n,
{
    if n == 0 || n > ls.len() {
        (cx_init(), Seq::empty())
    } else {
        let prev = cx_run(rules, file, ls, (n - 1) as nat);
        let next = cx_step(rules, file, prev.0, (n - 1) as nat, trim(ls[n - 1]));
        (next.0, prev.1 + next.1)
    }
}

/// Findings of the complexity checks (C004, C001, C003) on a file.
pub open spec fn complexity_violations(rules: Seq<RuleView>, file: Seq<char>, ls: Seq<Seq<char>>) -> Seq<ViolationView> {
    cx_run(rules, file, ls, ls.len()).1
}

/// All findings of the linter on one file (path relative to `src/`).
pub open spec fn file_violations(rules: Seq<RuleView>, path: Seq<char>, content: Seq<char>) -> Seq<ViolationView> {
    let ls = lines(content);
    layer_violations_upto(rules, path, ls, ls.len())
        + complexity_violations(rules, path, ls)
        + naming_violations_upto(rules, path, ls, ls.len())
        + invariant_violations(rules, path, content)
}

/// The finding of rule `id` with message `msg` for an import from `from` to
/// `to` at `line`, when the rule is enabled.
pub open spec fn layering_finding(rules: Seq<RuleView>, id: Seq<char>, msg: Seq<char>, from: Layer, to: Layer,
    file: Seq<char>, line: nat) -> Seq<ViolationView> {
    if rule_enabled(rules, id) {
        seq![mkv(id, LintCategory::Layering, LintSeverity::Error, file, line, msg,
            Some("移除 "@ + layer_name(from) + " → "@ + layer_name(to) + " 的依赖"@))]
    } else {
        Seq::empty()
    }
}

/// A `use crate::...` line (or `pub use`) of a file in a layer that imports
/// another layer is reported by the rule for that pair, as an error at that
/// line, exactly for the six forbidden pairs:
/// L001 domain→application, L002 domain→adapters, L003 domain→interfaces,
/// L004 application→interfaces, L005 application→adapters,
/// L006 adapters→interfaces; any other pair is allowed.
pub proof fn law_forbidden_imports_reported(rules: Seq<RuleView>, file: Seq<char>, idx: nat, line: Seq<char>)
    requires
        starts_with(trim(line), "use "@) || starts_with(trim(line), "pub use "@),
        contains(trim(line), "crate::"@),
        layer_of_path(file) is Some,
        imported_layer(trim(line)) is Some,
    ensures
        ({
            let from = layer_of_path(file)->Some_0;
            let to = imported_layer(trim(line))->Some_0;
            let found = layer_line_violations(rules, file, Some(from), idx, line);
            &&& (from, to) == (Layer::Domain, Layer::Application) ==> found
                == layering_finding(rules, "L001"@, "Domain 层不能 import Application 层"@, from, to, file, idx + 1)
            &&& (from, to) == (Layer::Domain, Layer::Adapters) ==> found
                == layering_finding(rules, "L002"@, "Domain 层不能 import Adapters 层"@, from, to, file, idx + 1)
            &&& (from, to) == (Layer::Domain, Layer::Interfaces) ==> found
                == layering_finding(rules, "L003"@, "Domain 层不能 import Interfaces 层"@, from, to, file, idx + 1)
            &&& (from, to) == (Layer::Application, Layer::Interfaces) ==> found
                == layering_finding(rules, "L004"@, "Application 层不能 import Interfaces 层"@, from, to, file, idx + 1)
            &&& (from, to) == (Layer::Application, Layer::Adapters) ==> found
                == layering_finding(rules, "L005"@, "Application 层不能直接依赖 Adapters，必须通过 Port"@, from, to, file, idx + 1)
            &&& (from, to) == (Layer::Adapters, Layer::Interfaces) ==> found
                == layering_finding(rules, "L006"@, "Adapters 层不能 import Interfaces 层"@, from, to, file, idx + 1)
            &&& layer_index(from) >= layer_index(to) ==> found.len() == 0
        }),
{
}

/// The position of a layer from the inside out.
pub open spec fn layer_index(l: Layer) -> nat {
    match l {
        Layer::Domain => 0,
        Layer::Application => 1,
        Layer::Adapters => 2,
        Layer::Interfaces => 3,
    }
}

/// The findings of each line are among the findings of the file.
pub proof fn law_line_findings_in_file(rules: Seq<RuleView>, file: Seq<char>, content: Seq<char>, k: int, v: ViolationView)
    requires
        0 <= k < lines(content).len(),
        layer_line_violations(rules, file, layer_of_path(file), k as nat, lines(content)[k]).contains(v),
    ensures
        file_violations(rules, file, content).contains(v),
{
    let ls = lines(content);
    lemma_upto_contains(rules, file, ls, ls.len(), k, v);
    let up = layer_violations_upto(rules, file, ls, ls.len());
    let i = choose|i: int| 0 <= i < up.len() && up[i] == v;
    let rest = complexity_violations(rules, file, ls) + naming_violations_upto(rules, file, ls, ls.len())
        + invariant_violations(rules, file, content);
    assert(file_violations(rules, file, content) =~= up + rest);
    assert((up + rest)[i] == v);
}

proof fn lemma_upto_contains(rules: Seq<RuleView>, file: Seq<char>, ls: Seq<Seq<char>>, n: nat, k: int, v: ViolationView)
    requires
        0 <= k < n,
        n <= ls.len(),
        layer_line_violations(rules, file, layer_of_path(file), k as nat, ls[k]).contains(v),
    ensures
        layer_violations_upto(rules, file, ls, n).contains(v),
    decreases n,
{
    let pre = layer_violations_upto(rules, file, ls, (n - 1) as nat);
    let last = layer_line_violations(rules, file, layer_of_path(file), (n - 1) as nat, ls[n - 1]);
    if k == n - 1 {
        let j = choose|j: int| 0 <= j < last.len() && last[j] == v;
        assert((pre + last)[pre.len() + j] == v);
    } else {
        lemma_upto_contains(rules, file, ls, (n - 1) as nat, k, v);
        let j = choose|j: int| 0 <= j < pre.len() && pre[j] == v;
        assert((pre + last)[j] == v);
    }
}

/// The findings of each file are among the findings of the lint run.
pub proof fn law_file_findings_in_run(rules: Seq<RuleView>, fs: Seq<(Seq<char>, Seq<char>)>, k: int, v: ViolationView)
    requires
        0 <= k < fs.len(),
        file_violations(rules, fs[k].0, fs[k].1).contains(v),
    ensures
        all_violations(rules, fs).contains(v),
    decreases fs.len(),
{
    let pre = all_violations(rules, fs.drop_last());
    let last = file_violations(rules, fs.last().0, fs.last().1);
    if k == fs.len() - 1 {
        let j = choose|j: int| 0 <= j < last.len() && last[j] == v;
        assert((pre + last)[pre.len() + j] == v);
    } else {
        assert(fs.drop_last()[k] == fs[k]);
        law_file_findings_in_run(rules, fs.drop_last(), k, v);
        let j = choose|j: int| 0 <= j < pre.len() && pre[j] == v;
        assert((pre + last)[j] == v);
    }
}

/// A source file handed to the linter: its path relative to `src/`, and its text.
pub struct SourceFile {
    pub path: String,
    pub content: String,
}

pub open spec fn file_pairs(fs: Seq<SourceFile>) -> Seq<(Seq<char>, Seq<char>)> {
    fs.map_values(|f: SourceFile| (f.path@, f.content@))
}

/// All findings of the linter on the files, in order.
pub open spec fn all_violations(rules: Seq<RuleView>, fs: Seq<(Seq<char>, Seq<char>)>) -> Seq<ViolationView>
    decreases fs.len(),
{
    if fs.len() == 0 {
        Seq::empty()
    } else {
        all_violations(rules, fs.drop_last()) + file_violations(rules, fs.last().0, fs.last().1)
    }
}

/// Number of findings of severity `s`.
pub open spec fn count_severity(vs: Seq<ViolationView>, s: LintSeverity) -> nat
    decreases vs.len(),
{
    if vs.len() == 0 {
        0
    } else {
        count_severity(vs.drop_last(), s) + (if vs.last().severity == s { 1nat } else { 0nat })
    }
}

/// Every finding has one of the three severities: the error, warning and
/// info counts of a lint run add up to its total.
pub proof fn law_severity_counts_add_up(vs: Seq<ViolationView>)
    ensures
        count_severity(vs, LintSeverity::Error) + count_severity(vs, LintSeverity::Warning)
            + count_severity(vs, LintSeverity::Info) == vs.len(),
    decreases vs.len(),
{
    if vs.len() > 0 {
        law_severity_counts_add_up(vs.drop_last());
    }
}

/// Number of findings of category `c`.
pub open spec fn count_category(vs: Seq<ViolationView>, c: LintCategory) -> nat
    decreases vs.len(),
{
    if vs.len() == 0 {
        0
    } else {
        count_category(vs.drop_last(), c) + (if vs.last().category == c { 1nat } else { 0nat })
    }
}

/// The name `{:?}` gives a category.
pub open spec fn category_name(c: LintCategory) -> Seq<char> {
    match c {
        LintCategory::Layering => "Layering"@,
        LintCategory::Complexity => "Complexity"@,
        LintCategory::Naming => "Naming"@,
        LintCategory::Testing => "Testing"@,
        LintCategory::Coupling => "Coupling"@,
        LintCategory::BestPractice => "BestPractice"@,
        LintCategory::Invariant => "Invariant"@,
    }
}

/// The name `{:?}` gives a severity.
pub open spec fn severity_name(s: LintSeverity) -> Seq<char> {
    match s {
        LintSeverity::Error => "Error"@,
        LintSeverity::Warning => "Warning"@,
        LintSeverity::Info => "Info"@,
    }
}

/// The categories, in the order of their names.
pub open spec fn categories_by_name() -> Seq<LintCategory> {
    seq![LintCategory::BestPractice, LintCategory::Complexity, LintCategory::Coupling, LintCategory::Invariant,
        LintCategory::Layering, LintCategory::Naming, LintCategory::Testing]
}

pub open spec fn severities_in_order() -> Seq<LintSeverity> {
    seq![LintSeverity::Error, LintSeverity::Warning, LintSeverity::Info]
}

/// (name, count) of each category of `ks` that occurs in `vs`, in the order of `ks`.
pub open spec fn category_tally(vs: Seq<ViolationView>, ks: Seq<LintCategory>) -> Seq<(Seq<char>, nat)>
    decreases ks.len(),
{
    if ks.len() == 0 {
        Seq::empty()
    } else {
        let rest = category_tally(vs, ks.drop_last());
        let c = count_category(vs, ks.last());
        if c > 0 { rest.push((category_name(ks.last()), c)) } else { rest }
    }
}

/// (name, count) of each severity of `ks` that occurs in `vs`, in the order of `ks`.
pub open spec fn severity_tally(vs: Seq<ViolationView>, ks: Seq<LintSeverity>) -> Seq<(Seq<char>, nat)>
    decreases ks.len(),
{
    if ks.len() == 0 {
        Seq::empty()
    } else {
        let rest = severity_tally(vs, ks.drop_last());
        let c = count_severity(vs, ks.last());
        if c > 0 { rest.push((severity_name(ks.last()), c)) } else { rest }
    }
}

pub open spec fn tally_view(t: Seq<(String, usize)>) -> Seq<(Seq<char>, nat)> {
    t.map_values(|p: (String, usize)| (p.0@, p.1 as nat))
}

/// Sum of the counts of a tally.
pub open spec fn tally_sum(t: Seq<(Seq<char>, nat)>) -> nat
    decreases t.len(),
{
    if t.len() == 0 {
        0
    } else {
        tally_sum(t.drop_last()) + t.last().1
    }
}

spec fn category_sum(vs: Seq<ViolationView>, ks: Seq<LintCategory>) -> nat
    decreases ks.len(),
{
    if ks.len() == 0 {
        0
    } else {
        category_sum(vs, ks.drop_last()) + count_category(vs, ks.last())
    }
}

spec fn severity_sum(vs: Seq<ViolationView>, ks: Seq<LintSeverity>) -> nat
    decreases ks.len(),
{
    if ks.len() == 0 {
        0
    } else {
        severity_sum(vs, ks.drop_last()) + count_severity(vs, ks.last())
    }
}

proof fn lemma_tally_sum_push(t: Seq<(Seq<char>, nat)>, x: (Seq<char>, nat))
    ensures
        tally_sum(t.push(x)) == tally_sum(t) + x.1,
{
    assert(t.push(x).drop_last() =~= t);
}

proof fn lemma_category_tally_sum(vs: Seq<ViolationView>, ks: Seq<LintCategory>)
    ensures
        tally_sum(category_tally(vs, ks)) == category_sum(vs, ks),
    decreases ks.len(),
{
    if ks.len() > 0 {
        lemma_category_tally_sum(vs, ks.drop_last());
        let rest = category_tally(vs, ks.drop_last());
        lemma_tally_sum_push(rest, (category_name(ks.last()), count_category(vs, ks.last())));
    }
}

proof fn lemma_severity_tally_sum(vs: Seq<ViolationView>, ks: Seq<LintSeverity>)
    ensures
        tally_sum(severity_tally(vs, ks)) == severity_sum(vs, ks),
    decreases ks.len(),
{
    if ks.len() > 0 {
        lemma_severity_tally_sum(vs, ks.drop_last());
        let rest = severity_tally(vs, ks.drop_last());
        lemma_tally_sum_push(rest, (severity_name(ks.last()), count_severity(vs, ks.last())));
    }
}

proof fn lemma_category_sum_empty(ks: Seq<LintCategory>)
    ensures
        category_sum(Seq::empty(), ks) == 0,
    decreases ks.len(),
{
    if ks.len() > 0 {
        lemma_category_sum_empty(ks.drop_last());
    }
}

proof fn lemma_severity_sum_empty(ks: Seq<LintSeverity>)
    ensures
        severity_sum(Seq::empty(), ks) == 0,
    decreases ks.len(),
{
    if ks.len() > 0 {
        lemma_severity_sum_empty(ks.drop_last());
    }
}

proof fn lemma_category_sum_push(vs: Seq<ViolationView>, v: ViolationView, ks: Seq<LintCategory>)
    requires
        ks.no_duplicates(),
    ensures
        category_sum(vs.push(v), ks) == category_sum(vs, ks) + (if ks.contains(v.category) { 1nat } else { 0nat }),
    decreases ks.len(),
{
    if ks.len() > 0 {
        let init = ks.drop_last();
        assert(init.no_duplicates()) by {
            assert forall|i: int, j: int| 0 <= i < init.len() && 0 <= j < init.len() && i != j implies init[i] != init[j] by {
                assert(init[i] == ks[i] && init[j] == ks[j]);
            }
        }
        lemma_category_sum_push(vs, v, init);
        assert(vs.push(v).drop_last() =~= vs);
        let k = ks.last();
        if v.category == k {
            assert(ks[ks.len() - 1] == v.category);
            if init.contains(v.category) {
                let i = choose|i: int| 0 <= i < init.len() && init[i] == v.category;
                assert(ks[i] == ks[ks.len() - 1]);
            }
        } else {
            if ks.contains(v.category) {
                let i = choose|i: int| 0 <= i < ks.len() && ks[i] == v.category;
                assert(init[i] == v.category);
            }
            if init.contains(v.category) {
                let i = choose|i: int| 0 <= i < init.len() && init[i] == v.category;
                assert(ks[i] == v.category);
            }
        }
    }
}

proof fn lemma_severity_sum_push(vs: Seq<ViolationView>, v: ViolationView, ks: Seq<LintSeverity>)
    requires
        ks.no_duplicates(),
    ensures
        severity_sum(vs.push(v), ks) == severity_sum(vs, ks) + (if ks.contains(v.severity) { 1nat } else { 0nat }),
    decreases ks.len(),
{
    if ks.len() > 0 {
        let init = ks.drop_last();
        assert(init.no_duplicates()) by {
            assert forall|i: int, j: int| 0 <= i < init.len() && 0 <= j < init.len() && i != j implies init[i] != init[j] by {
                assert(init[i] == ks[i] && init[j] == ks[j]);
            }
        }
        lemma_severity_sum_push(vs, v, init);
        assert(vs.push(v).drop_last() =~= vs);
        let k = ks.last();
        if v.severity == k {
            assert(ks[ks.len() - 1] == v.severity);
            if init.contains(v.severity) {
                let i = choose|i: int| 0 <= i < init.len() && init[i] == v.severity;
                assert(ks[i] == ks[ks.len() - 1]);
            }
        } else {
            if ks.contains(v.severity) {
                let i = choose|i: int| 0 <= i < ks.len() && ks[i] == v.severity;
                assert(init[i] == v.severity);
            }
            if init.contains(v.severity) {
                let i = choose|i: int| 0 <= i < init.len() && init[i] == v.severity;
                assert(ks[i] == v.severity);
            }
        }
    }
}

proof fn lemma_category_sum_total(vs: Seq<ViolationView>, ks: Seq<LintCategory>)
    requires
        ks.no_duplicates(),
        forall|c: LintCategory| ks.contains(c),
    ensures
        category_sum(vs, ks) == vs.len(),
    decreases vs.len(),
{
    if vs.len() == 0 {
        assert(vs =~= Seq::<ViolationView>::empty());
        lemma_category_sum_empty(ks);
    } else {
        lemma_category_sum_total(vs.drop_last(), ks);
        lemma_category_sum_push(vs.drop_last(), vs.last(), ks);
        assert(vs.drop_last().push(vs.last()) =~= vs);
        assert(ks.contains(vs.last().category));
    }
}

proof fn lemma_severity_sum_total(vs: Seq<ViolationView>, ks: Seq<LintSeverity>)
    requires
        ks.no_duplicates(),
        forall|c: LintSeverity| ks.contains(c),
    ensures
        severity_sum(vs, ks) == vs.len(),
    decreases vs.len(),
{
    if vs.len() == 0 {
        assert(vs =~= Seq::<ViolationView>::empty());
        lemma_severity_sum_empty(ks);
    } else {
        lemma_severity_sum_total(vs.drop_last(), ks);
        lemma_severity_sum_push(vs.drop_last(), vs.last(), ks);
        assert(vs.drop_last().push(vs.last()) =~= vs);
        assert(ks.contains(vs.last().severity));
    }
}

/// Every finding has exactly one category and one severity: the counts of
/// the category tally of a lint run add up to its total, and so do those of
/// its severity tally.
pub proof fn law_tallies_add_up(vs: Seq<ViolationView>)
    ensures
        tally_sum(category_tally(vs, categories_by_name())) == vs.len(),
        tally_sum(severity_tally(vs, severities_in_order())) == vs.len(),
{
    let ks = categories_by_name();
    assert(ks.no_duplicates());
    assert forall|c: LintCategory| ks.contains(c) by {
        match c {
            LintCategory::BestPractice => assert(ks[0] == c),
            LintCategory::Complexity => assert(ks[1] == c),
            LintCategory::Coupling => assert(ks[2] == c),
            LintCategory::Invariant => assert(ks[3] == c),
            LintCategory::Layering => assert(ks[4] == c),
            LintCategory::Naming => assert(ks[5] == c),
            LintCategory::Testing => assert(ks[6] == c),
        }
    }
    lemma_category_tally_sum(vs, ks);
    lemma_category_sum_total(vs, ks);
    let ss = severities_in_order();
    assert(ss.no_duplicates());
    assert forall|c: LintSeverity| ss.contains(c) by {
        match c {
            LintSeverity::Error => assert(ss[0] == c),
            LintSeverity::Warning => assert(ss[1] == c),
            LintSeverity::Info => assert(ss[2] == c),
        }
    }
    lemma_severity_tally_sum(vs, ss);
    lemma_severity_sum_total(vs, ss);
}

/// The outcome of a lint run.
#[derive(Debug, Clone)]
pub struct LintResult {
    pub total_files: usize,
    pub total_violations: usize,
    pub error_count: usize,
    pub warning_count: usize,
    pub info_count: usize,
    pub violations: Vec<LintViolation>,
    /// (category name, count) for each category found, by name.
    pub by_category: Vec<(String, usize)>,
    /// (severity name, count) for each severity found: Error, Warning, Info.
    pub by_severity: Vec<(String, usize)>,
}

/// Name of a category, as `{:?}` writes it.
pub fn category_str(c: LintCategory) -> (r: &'static str)
    ensures
        r@ == category_name(c),
{
    match c {
        LintCategory::Layering => "Layering",
        LintCategory::Complexity => "Complexity",
        LintCategory::Naming => "Naming",
        LintCategory::Testing => "Testing",
        LintCategory::Coupling => "Coupling",
        LintCategory::BestPractice => "BestPractice",
        LintCategory::Invariant => "Invariant",
    }
}

/// Name of a severity, as `{:?}` writes it.
pub fn severity_str(s: LintSeverity) -> (r: &'static str)
    ensures
        r@ == severity_name(s),
{
    match s {
        LintSeverity::Error => "Error",
        LintSeverity::Warning => "Warning",
        LintSeverity::Info => "Info",
    }
}

fn count_sev_exec(vs: &Vec<LintViolation>, s: LintSeverity) -> (r: usize)
    ensures
        r == count_severity(violation_views(vs@), s),
{
    let mut cnt: usize = 0;
    let n = vs.len();
    let ghost vv = violation_views(vs@);
    assert(vv.take(0) =~= Seq::<ViolationView>::empty());
    for i in 0..n
        invariant
            n == vs@.len(),
            vv == violation_views(vs@),
            cnt <= i,
            cnt == count_severity(vv.take(i as int), s),
    {
        assert(vv.take(i + 1).drop_last() =~= vv.take(i as int));
        if vs[i].severity == s {
            cnt = cnt + 1;
        }
    }
    assert(vv.take(n as int) =~= vv);
    cnt
}

fn count_cat_exec(vs: &Vec<LintViolation>, c: LintCategory) -> (r: usize)
    ensures
        r == count_category(violation_views(vs@), c),
{
    let mut cnt: usize = 0;
    let n = vs.len();
    let ghost vv = violation_views(vs@);
    assert(vv.take(0) =~= Seq::<ViolationView>::empty());
    for i in 0..n
        invariant
            n == vs@.len(),
            vv == violation_views(vs@),
            cnt <= i,
            cnt == count_category(vv.take(i as int), c),
    {
        assert(vv.take(i + 1).drop_last() =~= vv.take(i as int));
        if vs[i].category == c {
            cnt = cnt + 1;
        }
    }
    assert(vv.take(n as int) =~= vv);
    cnt
}

fn tally_categories(vs: &Vec<LintViolation>) -> (r: Vec<(String, usize)>)
    ensures
        tally_view(r@) == category_tally(violation_views(vs@), categories_by_name()),
{
    let ks: [LintCategory; 7] = [LintCategory::BestPractice, LintCategory::Complexity, LintCategory::Coupling,
        LintCategory::Invariant, LintCategory::Layering, LintCategory::Naming, LintCategory::Testing];
    assert(ks@ =~= categories_by_name());
    let mut r: Vec<(String, usize)> = Vec::new();
    let ghost vv = violation_views(vs@);
    assert(ks@.take(0) =~= Seq::<LintCategory>::empty());
    for i in 0..7
        invariant
            ks@ == categories_by_name(),
            vv == violation_views(vs@),
            tally_view(r@) == category_tally(vv, ks@.take(i as int)),
    {
        assert(ks@.take(i + 1).drop_last() =~= ks@.take(i as int));
        let c = count_cat_exec(vs, ks[i]);
        let ghost before = r@;
        if c > 0 {
            r.push((owned(category_str(ks[i])), c));
            assert(tally_view(r@) =~= tally_view(before).push((category_name(ks@[i as int]), c as nat)));
        }
    }
    assert(ks@.take(7) =~= ks@);
    r
}

fn tally_severities(vs: &Vec<LintViolation>) -> (r: Vec<(String, usize)>)
    ensures
        tally_view(r@) == severity_tally(violation_views(vs@), severities_in_order()),
{
    let ks: [LintSeverity; 3] = [LintSeverity::Error, LintSeverity::Warning, LintSeverity::Info];
    assert(ks@ =~= severities_in_order());
    let mut r: Vec<(String, usize)> = Vec::new();
    let ghost vv = violation_views(vs@);
    assert(ks@.take(0) =~= Seq::<LintSeverity>::empty());
    for i in 0..3
        invariant
            ks@ == severities_in_order(),
            vv == violation_views(vs@),
            tally_view(r@) == severity_tally(vv, ks@.take(i as int)),
    {
        assert(ks@.take(i + 1).drop_last() =~= ks@.take(i as int));
        let c = count_sev_exec(vs, ks[i]);
        let ghost before = r@;
        if c > 0 {
            r.push((owned(severity_str(ks[i])), c));
            assert(tally_view(r@) =~= tally_view(before).push((severity_name(ks@[i as int]), c as nat)));
        }
    }
    assert(ks@.take(3) =~= ks@);
    r
}

pub struct ArchitectureLinter {
    rules: Vec<LintRule>,
}

impl ArchitectureLinter {
    /// The rules this linter applies.
    pub closed spec fn rules_view(&self) -> Seq<RuleView> {
        rule_views(self.rules@)
    }

    /// A linter with the built-in catalogue.
    pub fn new() -> (r: Self)
        ensures
            r.rules_view() == default_rules_spec(),
    {
        ArchitectureLinter { rules: Self::default_rules() }
    }

    /// The built-in rule catalogue, every rule enabled.
    pub fn default_rules() -> (v: Vec<LintRule>)
        ensures
            rule_views(v@) == default_rules_spec(),
    {
        let mut v: Vec<LintRule> = Vec::new();
        v.push(mk_rule("L001", "domain-no-application-dep", LintCategory::Layering, LintSeverity::Error, "Domain 层不能 import Application 层"));
    v.push(mk_rule("L002", "domain-no-adapters-dep", LintCategory::Layering, LintSeverity::Error, "Domain 层不能 import Adapters 层"));
    v.push(mk_rule("L003", "domain-no-interfaces-dep", LintCategory::Layering, LintSeverity::Error, "Domain 层不能 import Interfaces 层"));
    v.push(mk_rule("L004", "application-no-interfaces-dep", LintCategory::Layering, LintSeverity::Error, "Application 层不能 import Interfaces 层"));
    v.push(mk_rule("L005", "application-no-adapters-dep", LintCategory::Layering, LintSeverity::Error, "Application 层不能直接依赖 Adapters，必须通过 Port"));
    v.push(mk_rule("L006", "adapters-no-interfaces-dep", LintCategory::Layering, LintSeverity::Error, "Adapters 层不能 import Interfaces 层"));
    v.push(mk_rule("L007", "no-circular-dependency", LintCategory::Coupling, LintSeverity::Error, "模块之间不能有循环依赖"));
    v.push(mk_rule("L008", "port-must-be-trait", LintCategory::Layering, LintSeverity::Error, "Port 必须是 trait，不能有实现"));
    v.push(mk_rule("L009", "usecase-in-application", LintCategory::Layering, LintSeverity::Warning, "UseCase 必须在 application 层"));
    v.push(mk_rule("C001", "function-too-long", LintCategory::Complexity, LintSeverity::Warning, "函数长度不能超过 80 行"));
    v.push(mk_rule("C002", "cyclomatic-complexity", LintCategory::Complexity, LintSeverity::Warning, "函数圈复杂度不能超过 15"));
    v.push(mk_rule("C003", "nesting-too-deep", LintCategory::Complexity, LintSeverity::Warning, "嵌套深度不能超过 4 层"));
    v.push(mk_rule("C004", "too-many-params", LintCategory::Complexity, LintSeverity::Warning, "函数参数不能超过 6 个"));
    v.push(mk_rule("C005", "struct-too-many-fields", LintCategory::Complexity, LintSeverity::Warning, "结构体字段不能超过 15 个"));
    v.push(mk_rule("N001", "port-naming", LintCategory::Naming, LintSeverity::Warning, "Port 接口使用名词或 -er 后缀"));
    v.push(mk_rule("N002", "usecase-naming", LintCategory::Naming, LintSeverity::Info, "UseCase 使用动词 + 名词命名"));
    v.push(mk_rule("N003", "adapter-naming", LintCategory::Naming, LintSeverity::Warning, "Adapter 命名包含技术栈名 + Port 名"));
    v.push(mk_rule("N004", "test-naming", LintCategory::Naming, LintSeverity::Info, "测试函数名清晰表达测试意图"));
    v.push(mk_rule("T001", "core-module-test-coverage", LintCategory::Testing, LintSeverity::Warning, "核心模块测试覆盖率建议 ≥ 85%"));
    v.push(mk_rule("T002", "domain-test-coverage", LintCategory::Testing, LintSeverity::Warning, "Domain 层测试覆盖率建议 ≥ 95%"));
    v.push(mk_rule("T003", "public-function-has-test", LintCategory::Testing, LintSeverity::Info, "每个 Public 函数至少有一个测试"));
    v.push(mk_rule("B001", "no-unwrap", LintCategory::BestPractice, LintSeverity::Warning, "避免使用 unwrap()/expect()，改用错误处理"));
    v.push(mk_rule("B002", "no-unsafe", LintCategory::BestPractice, LintSeverity::Warning, "避免使用 unsafe 代码块"));
    v.push(mk_rule("B003", "no-todo", LintCategory::BestPractice, LintSeverity::Info, "避免遗留 todo!() / unimplemented!()"));
    v.push(mk_rule("B004", "module-docs", LintCategory::BestPractice, LintSeverity::Info, "公开模块应有文档注释"));
    v.push(mk_rule("INV01", "inward-dependency", LintCategory::Invariant, LintSeverity::Error, "不变量1：依赖向内不变，外层只能依赖内层"));
    v.push(mk_rule("INV02", "port-contract-stability", LintCategory::Invariant, LintSeverity::Warning, "不变量2：端口契约不变，Port 接口语义应稳定"));
    v.push(mk_rule("INV03", "isolation-no-shared-state", LintCategory::Invariant, LintSeverity::Warning, "不变量3：隔离性不变，Cell 间不共享内部可变状态"));
    v.push(mk_rule("INV04", "event-contract-compatibility", LintCategory::Invariant, LintSeverity::Warning, "不变量4：事件契约不变，事件 Schema 应向前兼容"));
    v.push(mk_rule("INV05", "testability-core-independent", LintCategory::Invariant, LintSeverity::Warning, "不变量5：可测试性不变，核心逻辑应可独立测试"));
    v.push(mk_rule("INV06", "deletability-modular-design", LintCategory::Invariant, LintSeverity::Info, "不变量6：可删除性不变，功能应可整体删除"));
        assert(rule_views(v@) =~= default_rules_spec());
        v
    }

    /// The rules this linter applies.
    pub fn list_rules(&self) -> (r: &[LintRule])
        ensures
            rule_views(r@) == self.rules_view(),
    {
        self.rules.as_slice()
    }

    /// The layer of a source path.
    fn detect_layer(path: &str) -> (r: Option<Layer>)
        ensures
            r == layer_of_path(path@),
    {
        let raw = to_chars(path);
        let n = replace_char_in(raw.as_slice(), '\\', '/');
        let n = n.as_slice();
        if has_text(n, "src/domain/") || begins(n, "domain/") {
            Some(Layer::Domain)
        } else if has_text(n, "src/application/") || begins(n, "application/") {
            Some(Layer::Application)
        } else if has_text(n, "src/adapters/") || begins(n, "adapters/") {
            Some(Layer::Adapters)
        } else if has_text(n, "src/interfaces/") || begins(n, "interfaces/") {
            Some(Layer::Interfaces)
        } else {
            None
        }
    }

    fn check_banned_dep(&self, from: Layer, to: Layer, file: &str, line: usize, violations: &mut Vec<LintViolation>)
        ensures
            violation_views(final(violations)@) == violation_views(old(violations)@)
                + banned_dep_violations(self.rules_view(), from, to, file@, line as nat),
    {
        let ghost old_v = violation_views(violations@);
        let found: Option<(&str, &str)> = match (from, to) {
            (Layer::Domain, Layer::Application) => Some(("L001", "Domain 层不能 import Application 层")),
            (Layer::Domain, Layer::Adapters) => Some(("L002", "Domain 层不能 import Adapters 层")),
            (Layer::Domain, Layer::Interfaces) => Some(("L003", "Domain 层不能 import Interfaces 层")),
            (Layer::Application, Layer::Interfaces) => Some(("L004", "Application 层不能 import Interfaces 层")),
            (Layer::Application, Layer::Adapters) => Some(("L005", "Application 层不能直接依赖 Adapters，必须通过 Port")),
            (Layer::Adapters, Layer::Interfaces) => Some(("L006", "Adapters 层不能 import Interfaces 层")),
            _ => None,
        };
        match found {
            Some((id, msg)) => {
                if self.is_rule_enabled(id) {
                    let mut sugg = owned("移除 ");
                    push_str(&mut sugg, layer_str(from));
                    push_str(&mut sugg, " → ");
                    push_str(&mut sugg, layer_str(to));
                    push_str(&mut sugg, " 的依赖");
                    violations.push(LintViolation {
                        rule_id: owned(id),
                        category: LintCategory::Layering,
                        severity: LintSeverity::Error,
                        file: owned(file),
                        line,
                        message: owned(msg),
                        suggestion: Some(sugg),
                    });
                    assert(violation_views(violations@) =~= old_v + banned_dep_violations(self.rules_view(), from, to, file@, line as nat));
                } else {
                    assert(violation_views(violations@) =~= old_v + Seq::<ViolationView>::empty());
                }
            },
            None => {
                assert(violation_views(violations@) =~= old_v + Seq::<ViolationView>::empty());
            },
        }
    }

    fn check_layer_deps(&self, rel_path: &str, ls: &Vec<Vec<char>>, violations: &mut Vec<LintViolation>)
        requires
            ls@.len() < usize::MAX,
        ensures
            violation_views(final(violations)@) == violation_views(old(violations)@)
                + layer_violations_upto(self.rules_view(), rel_path@, views(ls@), ls@.len()),
    {
        let layer = Self::detect_layer(rel_path);
        let ghost v0 = violation_views(violations@);
        let ghost vl = views(ls@);
        let n = ls.len();
        assert(v0 + layer_violations_upto(self.rules_view(), rel_path@, vl, 0) =~= v0);
        for i in 0..n
            invariant
                n == ls@.len(),
                n < usize::MAX,
                vl == views(ls@),
                layer == layer_of_path(rel_path@),
                violation_views(violations@) == v0 + layer_violations_upto(self.rules_view(), rel_path@, vl, i as nat),
        {
            let t = trim_chars(ls[i].as_slice());
            let t = t.as_slice();
            let ghost before = violation_views(violations@);
            if (begins(t, "use ") || begins(t, "pub use ")) && has_text(t, "crate::") {
                let dep = if has_text(t, "::domain") || has_text(t, "crate::domain") {
                    Some(Layer::Domain)
                } else if has_text(t, "::application") || has_text(t, "crate::application") {
                    Some(Layer::Application)
                } else if has_text(t, "::adapters") || has_text(t, "crate::adapters") {
                    Some(Layer::Adapters)
                } else if has_text(t, "::interfaces") || has_text(t, "crate::interfaces") {
                    Some(Layer::Interfaces)
                } else {
                    None
                };
                match (layer, dep) {
                    (Some(from), Some(to)) => {
                        self.check_banned_dep(from, to, rel_path, i + 1, violations);
                    },
                    _ => {
                        assert(violation_views(violations@) =~= before + Seq::<ViolationView>::empty());
                    },
                }
            } else {
                assert(violation_views(violations@) =~= before + Seq::<ViolationView>::empty());
            }
            assert(vl[i as int] == ls@[i as int]@);
            assert(v0 + layer_violations_upto(self.rules_view(), rel_path@, vl, (i + 1) as nat)
                =~= (v0 + layer_violations_upto(self.rules_view(), rel_path@, vl, i as nat))
                    + layer_line_violations(self.rules_view(), rel_path@, layer, i as nat, vl[i as int]));
        }
    }

    fn check_naming(&self, file: &str, ls: &Vec<Vec<char>>, violations: &mut Vec<LintViolation>)
        ensures
            violation_views(final(violations)@) == violation_views(old(violations)@)
                + naming_violations_upto(self.rules_view(), file@, views(ls@), ls@.len()),
    {
        let ghost v0 = violation_views(violations@);
        let ghost vl = views(ls@);
        let ghost rules = self.rules_view();
        let n = ls.len();
        let b001 = self.is_rule_enabled("B001");
        let b003 = self.is_rule_enabled("B003");
        let b002 = self.is_rule_enabled("B002");
        assert(v0 + naming_violations_upto(rules, file@, vl, 0) =~= v0);
        for i in 0..n
            invariant
                n == ls@.len(),
                vl == views(ls@),
                rules == self.rules_view(),
                b001 == rule_enabled(rules, "B001"@),
                b003 == rule_enabled(rules, "B003"@),
                b002 == rule_enabled(rules, "B002"@),
                violation_views(violations@) == v0 + naming_violations_upto(rules, file@, vl, i as nat),
        {
            let t = trim_chars(ls[i].as_slice());
            let t = t.as_slice();
            let ghost before = violation_views(violations@);
            let plain = !begins(t, "//") && !begins(t, "*");
            if b001 && (has_text(t, ".unwrap()") || has_text(t, ".expect(")) && plain {
                violations.push(LintViolation {
                    rule_id: owned("B001"),
                    category: LintCategory::BestPractice,
                    severity: LintSeverity::Warning,
                    file: owned(file),
                    line: i + 1,
                    message: owned("避免使用 unwrap()/expect()，改用适当的错误处理"),
                    suggestion: Some(owned("使用 match 或 ? 运算符处理错误")),
                });
            }
            let ghost mid1 = violation_views(violations@);
            if b003 && (has_text(t, "todo!") || has_text(t, "unimplemented!")) && plain {
                violations.push(LintViolation {
                    rule_id: owned("B003"),
                    category: LintCategory::BestPractice,
                    severity: LintSeverity::Info,
                    file: owned(file),
                    line: i + 1,
                    message: owned("存在 todo!() 或 unimplemented!()，请尽快实现"),
                    suggestion: None,
                });
            }
            let ghost mid2 = violation_views(violations@);
            if b002 && has_text(t, "unsafe ") && plain {
                violations.push(LintViolation {
                    rule_id: owned("B002"),
                    category: LintCategory::BestPractice,
                    severity: LintSeverity::Warning,
                    file: owned(file),
                    line: i + 1,
                    message: owned("避免使用 unsafe 代码块"),
                    suggestion: Some(owned("考虑使用安全的抽象替代 unsafe")),
                });
            }
            proof {
                assert(vl[i as int] == ls@[i as int]@);
                let nl = naming_line_violations(rules, file@, i as nat, vl[i as int]);
                assert(violation_views(violations@) =~= before + nl);
                assert(v0 + naming_violations_upto(rules, file@, vl, (i + 1) as nat)
                    =~= (v0 + naming_violations_upto(rules, file@, vl, i as nat)) + nl);
            }
        }
    }

    #[verifier::rlimit(40)]
    fn check_invariants(&self, file: &str, content: &[char], ls: &Vec<Vec<char>>, violations: &mut Vec<LintViolation>)
        requires
            text_fits(content@),
            views(ls@) == lines(content@),
        ensures
            violation_views(final(violations)@) == violation_views(old(violations)@)
                + invariant_violations(self.rules_view(), file@, content@),
    {
        let ghost v0 = violation_views(violations@);
        let ghost c = content@;
        if self.is_rule_enabled("INV02") {
            check_port_stability(file, content, violations);
        }
        let ghost a1 = violation_views(violations@);
        assert(a1 =~= v0 + (if rule_enabled(self.rules_view(), "INV02"@) { port_stability_violations(file@, c) } else { Seq::empty() }));
        if self.is_rule_enabled("INV03") {
            check_isolation(file, content, ls, violations);
        }
        let ghost a2 = violation_views(violations@);
        assert(a2 =~= a1 + (if rule_enabled(self.rules_view(), "INV03"@) { isolation_violations(file@, c) } else { Seq::empty() }));
        if self.is_rule_enabled("INV04") {
            check_event_compatibility(file, content, violations);
        }
        let ghost a3 = violation_views(violations@);
        assert(a3 =~= a2 + (if rule_enabled(self.rules_view(), "INV04"@) { event_violations(file@, c) } else { Seq::empty() }));
        if self.is_rule_enabled("INV05") {
            check_testability(file, content, ls, violations);
        }
        let ghost a4 = violation_views(violations@);
        assert(a4 =~= a3 + (if rule_enabled(self.rules_view(), "INV05"@) { testability_violations(file@, c) } else { Seq::empty() }));
        if self.is_rule_enabled("INV06") {
            check_deletability(file, content, violations);
        }
        assert(violation_views(violations@) =~= a4 + (if rule_enabled(self.rules_view(), "INV06"@) { deletability_violations(file@, c) } else { Seq::empty() }));
    }

    #[verifier::rlimit(60)]
    fn check_complexity(&self, file: &str, ls: &Vec<Vec<char>>, violations: &mut Vec<LintViolation>)
        requires
            sum_lens(views(ls@)) < usize::MAX / 8,
            ls@.len() < usize::MAX / 8,
        ensures
            violation_views(final(violations)@) == violation_views(old(violations)@)
                + complexity_violations(self.rules_view(), file@, views(ls@)),
    {
        let ghost v0 = violation_views(violations@);
        let ghost vl = views(ls@);
        let ghost rules = self.rules_view();
        let c004_on = self.is_rule_enabled("C004");
        let c001_on = self.is_rule_enabled("C001");
        let c003_on = self.is_rule_enabled("C003");
        let mut in_function = false;
        let mut func_start: usize = 0;
        let mut func_name: Vec<char> = Vec::new();
        let mut brace_count: i64 = 0;
        let mut max_nesting: usize = 0;
        let mut current_nesting: usize = 0;
        let n = ls.len();
        assert(vl.take(0) =~= Seq::<Seq<char>>::empty());
        assert(v0 + Seq::<ViolationView>::empty() =~= v0);
        for i in 0..n
            invariant
                n == ls@.len(),
                n < usize::MAX / 8,
                vl == views(ls@),
                sum_lens(vl) < usize::MAX / 8,
                rules == self.rules_view(),
                c004_on == rule_enabled(rules, "C004"@),
                c001_on == rule_enabled(rules, "C001"@),
                c003_on == rule_enabled(rules, "C003"@),
                ({
                    let st = cx_run(rules, file@, vl, i as nat).0;
                    &&& st.in_fn == in_function
                    &&& st.start == func_start as nat
                    &&& st.name == func_name@
                    &&& st.braces == brace_count as int
                    &&& st.max_nest == max_nesting as nat
                    &&& st.cur_nest == current_nesting as nat
                }),
                in_function ==> 1 <= func_start <= i,
                -(sum_lens(vl.take(i as int)) as int) <= brace_count <= sum_lens(vl.take(i as int)),
                max_nesting <= sum_lens(vl.take(i as int)),
                current_nesting <= sum_lens(vl.take(i as int)),
                violation_views(violations@) == v0 + cx_run(rules, file@, vl, i as nat).1,
        {
            let ghost before = violation_views(violations@);
            let ghost prev_sum = sum_lens(vl.take(i as int));
            let t = trim_chars(ls[i].as_slice());
            let t = t.as_slice();
            proof {
                assert(vl[i as int] == ls@[i as int]@);
                assert(vl.take(i + 1).drop_last() =~= vl.take(i as int));
                lemma_sum_lens_take(vl, i + 1);
                lemma_count_char_le(t@, ',');
                lemma_count_char_le(t@, '{');
                lemma_count_char_le(t@, '}');
                crate::text::lemma_trim_len(vl[i as int]);
            }
            let ghost st = cx_run(rules, file@, vl, i as nat).0;
            let ghost step = cx_step(rules, file@, st, i as nat, t@);
            let header = (begins(t, "fn ") || begins(t, "pub fn ") || begins(t, "async fn ") || begins(t, "pub async fn "))
                && has_text(t, "(") && !in_function;
            if header {
                in_function = true;
                func_start = i + 1;
                let k = find_char_from(t, '(', 0);
                proof {
                    assert(t@.skip(0) =~= t@);
                    lemma_first_index_of_bounds(t@, '(');
                }
                let w = word_start_exec(t, k);
                func_name = Vec::new();
                let mut q = w;
                while q < k
                    invariant
                        w <= q <= k <= t@.len(),
                        func_name@ == t@.subrange(w as int, q as int),
                    decreases k - q,
                {
                    func_name.push(t[q]);
                    assert(t@.subrange(w as int, q + 1) =~= t@.subrange(w as int, q as int).push(t@[q as int]));
                    q = q + 1;
                }
                brace_count = 0;
                max_nesting = 0;
                current_nesting = 0;
                let params = count_char_in(t, ',') + 1;
                if params > 6 && c004_on {
                    let mut msg = owned("函数 `");
                    push_chars(&mut msg, func_name.as_slice());
                    push_str(&mut msg, "` 参数过多 (");
                    push_decimal(&mut msg, params);
                    push_str(&mut msg, ")，建议 ≤ 6 个");
                    violations.push(LintViolation {
                        rule_id: owned("C004"),
                        category: LintCategory::Complexity,
                        severity: LintSeverity::Warning,
                        file: owned(file),
                        line: i + 1,
                        message: msg,
                        suggestion: Some(owned("考虑使用结构体或元组合并参数")),
                    });
                }
            }
            let ghost mid = violation_views(violations@);
            assert(mid =~= before + (if header && count_char(t@, ',') + 1 > 6 && c004_on {
                seq![c004(file@, (i + 1) as nat, fn_name_of(t@), count_char(t@, ',') + 1)]
            } else {
                Seq::<ViolationView>::empty()
            }));
            if in_function {
                let opens = count_char_in(t, '{');
                let closes = count_char_in(t, '}');
                let control = has_text(t, "if ") || begins(t, "else") || has_text(t, "match ") || has_text(t, "for ")
                    || has_text(t, "while ") || has_text(t, "loop {");
                if control {
                    current_nesting = current_nesting + opens;
                    if current_nesting > max_nesting {
                        max_nesting = current_nesting;
                    }
                }
                current_nesting = if current_nesting >= closes { current_nesting - closes } else { 0 };
                brace_count = brace_count + opens as i64;
                brace_count = brace_count - closes as i64;
                if brace_count <= 0 && func_start > 0 {
                    let func_length = i + 1 - func_start;
                    if func_length > 80 && c001_on {
                        let mut msg = owned("函数 `");
                        push_chars(&mut msg, func_name.as_slice());
                        push_str(&mut msg, "` 过长 (");
                        push_decimal(&mut msg, func_length);
                        push_str(&mut msg, " 行)，建议 ≤ 80 行");
                        violations.push(LintViolation {
                            rule_id: owned("C001"),
                            category: LintCategory::Complexity,
                            severity: LintSeverity::Warning,
                            file: owned(file),
                            line: func_start,
                            message: msg,
                            suggestion: Some(owned("考虑拆分为多个小函数")),
                        });
                    }
                    if max_nesting > 4 && c003_on {
                        let mut msg = owned("函数 `");
                        push_chars(&mut msg, func_name.as_slice());
                        push_str(&mut msg, "` 嵌套过深 (");
                        push_decimal(&mut msg, max_nesting);
                        push_str(&mut msg, " 层)，建议 ≤ 4 层");
                        violations.push(LintViolation {
                            rule_id: owned("C003"),
                            category: LintCategory::Complexity,
                            severity: LintSeverity::Warning,
                            file: owned(file),
                            line: func_start,
                            message: msg,
                            suggestion: Some(owned("考虑提前返回或提取函数")),
                        });
                    }
                    in_function = false;
                }
            }
            proof {
                assert(vl[i as int] == ls@[i as int]@);
                assert(violation_views(violations@) =~= before + step.1);
                assert(v0 + cx_run(rules, file@, vl, (i + 1) as nat).1 =~= (v0 + cx_run(rules, file@, vl, i as nat).1) + step.1);
            }
        }
    }

    fn lint_file(&self, path: &str, content: &str, violations: &mut Vec<LintViolation>)
        requires
            text_fits(content@),
        ensures
            violation_views(final(violations)@) == violation_views(old(violations)@)
                + file_violations(self.rules_view(), path@, content@),
    {
        let ghost v0 = violation_views(violations@);
        let cc = to_chars(content);
        let ls = split_lines(cc.as_slice());
        proof {
            crate::text::lemma_lines_len(content@);
            lemma_lines_sum_lens(content@);
        }
        self.check_layer_deps(path, &ls, violations);
        let ghost a1 = violation_views(violations@);
        self.check_complexity(path, &ls, violations);
        let ghost a2 = violation_views(violations@);
        self.check_naming(path, &ls, violations);
        let ghost a3 = violation_views(violations@);
        self.check_invariants(path, cc.as_slice(), &ls, violations);
        assert(violation_views(violations@) =~= v0 + file_violations(self.rules_view(), path@, content@));
    }

    /// Lints the given sources (paths relative to `src/`).
    pub fn lint(&self, files: &[SourceFile]) -> (r: LintResult)
        requires
            forall|k: int| 0 <= k < files@.len() ==> text_fits(#[trigger] files@[k].content@),
        ensures
            r.total_files == files@.len(),
            violation_views(r.violations@) == all_violations(self.rules_view(), file_pairs(files@)),
            r.total_violations == r.violations@.len(),
            r.error_count == count_severity(violation_views(r.violations@), LintSeverity::Error),
            r.warning_count == count_severity(violation_views(r.violations@), LintSeverity::Warning),
            r.info_count == count_severity(violation_views(r.violations@), LintSeverity::Info),
            tally_view(r.by_category@) == category_tally(violation_views(r.violations@), categories_by_name()),
            tally_view(r.by_severity@) == severity_tally(violation_views(r.violations@), severities_in_order()),
            r.total_violations == r.error_count + r.warning_count + r.info_count,
            tally_sum(tally_view(r.by_category@)) == r.total_violations,
            tally_sum(tally_view(r.by_severity@)) == r.total_violations,
            files@.len() == 0 ==> r.total_files == 0 && r.violations@.len() == 0,
    {
        let mut violations: Vec<LintViolation> = Vec::new();
        let n = files.len();
        let ghost fp = file_pairs(files@);
        assert(fp.take(0) =~= Seq::<(Seq<char>, Seq<char>)>::empty());
        assert(violation_views(violations@) =~= Seq::<ViolationView>::empty());
        for i in 0..n
            invariant
                n == files@.len(),
                fp == file_pairs(files@),
                forall|k: int| 0 <= k < files@.len() ==> text_fits(#[trigger] files@[k].content@),
                violation_views(violations@) == all_violations(self.rules_view(), fp.take(i as int)),
        {
            assert(text_fits(files@[i as int].content@));
            self.lint_file(files[i].path.as_str(), files[i].content.as_str(), &mut violations);
            assert(fp.take(i + 1).drop_last() =~= fp.take(i as int));
        }
        assert(fp.take(n as int) =~= fp);
        let error_count = count_sev_exec(&violations, LintSeverity::Error);
        let warning_count = count_sev_exec(&violations, LintSeverity::Warning);
        let info_count = count_sev_exec(&violations, LintSeverity::Info);
        let by_category = tally_categories(&violations);
        let by_severity = tally_severities(&violations);
        proof {
            let vv = violation_views(violations@);
            assert(vv.len() == violations@.len());
            law_severity_counts_add_up(vv);
            law_tallies_add_up(vv);
            if n == 0 {
                assert(fp =~= Seq::<(Seq<char>, Seq<char>)>::empty());
            }
        }
        LintResult {
            total_files: n,
            total_violations: violations.len(),
            error_count,
            warning_count,
            info_count,
            violations,
            by_category,
            by_severity,
        }
    }

    fn is_rule_enabled(&self, rule_id: &str) -> (r: bool)
        ensures
            r == rule_enabled(self.rules_view(), rule_id@),
    {
        let n = self.rules.len();
        let ghost rs = self.rules_view();
        assert(rs.skip(0) =~= rs);
        for i in 0..n
            invariant
                n == self.rules@.len(),
                rs == rule_views(self.rules@),
                rule_enabled(rs, rule_id@) == rule_enabled(rs.skip(i as int), rule_id@),
        {
            assert(rs.skip(i as int).drop_first() =~= rs.skip(i + 1));
            if str_eq(self.rules[i].id.as_str(), rule_id) {
                return self.rules[i].enabled;
            }
        }
        assert(rs.skip(n as int).len() == 0);
        false
    }
}

} // verus!
