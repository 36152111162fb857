//! Handoff packages: what the next developer needs to pick up a task —
//! project overview, current task and next actions, decisions, rules,
//! recently changed files and open questions.
use vstd::prelude::*;
use crate::text::{owned, push_str, push_decimal, to_chars, from_chars, sub_chars, trim, trim_chars, lines, views,
    str_lines, starts_with, contains, begins, has_text, str_eq, unicode_lowercase, to_lowercase,
    trim_start_matches, trim_start_matches_exec, lex_lt, lex_less, lemma_lex_lt_asym, decimal};
use crate::impact_analysis_service::string_views;
use crate::decision_service::{DecisionRecord, DecisionStorePort};
use crate::auto_progress_service::NextStep;
use crate::clock::{now_rfc3339, new_uuid};
use crate::errors::CellResult;

verus! {

broadcast use vstd::seq_lib::group_to_multiset_ensures;

/// A layer directory with its purpose and number of files.
#[derive(Debug, Clone)]
pub struct DirectoryInfo {
    pub path: String,
    pub purpose: String,
    pub file_count: usize,
}

/// What the project is.
#[derive(Debug, Clone)]
pub struct ProjectOverview {
    pub name: String,
    pub description: String,
    pub architecture_style: String,
    pub tech_stack: Vec<String>,
    pub key_directories: Vec<DirectoryInfo>,
}

/// The task being handed over.
#[derive(Debug, Clone)]
pub struct TaskContext {
    pub name: String,
    pub description: String,
    pub status: String,
    pub started_at: Option<String>,
    pub last_activity_at: Option<String>,
}

/// A step the next developer should take.
#[derive(Debug, Clone)]
pub struct NextActionItem {
    pub id: String,
    pub description: String,
    pub priority: u8,
    pub estimated_minutes: Option<u32>,
}

/// A recently changed file; the time stamp is an RFC 3339 text in UTC.
#[derive(Debug, Clone)]
pub struct RecentFileInfo {
    pub path: String,
    pub last_modified: String,
    pub lines_of_code: usize,
    pub change_type: String,
}

/// A source file with its role in the architecture.
#[derive(Debug, Clone)]
pub struct FileSummary {
    pub path: String,
    pub role: String,
    pub lines_of_code: usize,
}

/// A layer directory present in the project.
#[derive(Debug, Clone)]
pub struct LayerInfo {
    pub name: String,
    pub file_count: usize,
}

/// What is missing from a package.
#[derive(Debug, Clone)]
pub struct HandoffValidation {
    pub is_complete: bool,
    pub missing_fields: Vec<String>,
}

/// Everything handed over.
#[derive(Debug, Clone)]
pub struct HandoffPackage {
    pub package_id: String,
    pub project_name: String,
    pub generated_by: Option<String>,
    pub generated_at: String,
    pub project_overview: ProjectOverview,
    pub current_task: TaskContext,
    pub next_actions: Vec<NextActionItem>,
    pub decisions: Vec<DecisionRecord>,
    pub recent_files: Vec<RecentFileInfo>,
    pub development_rules: Vec<String>,
    pub quick_start: Vec<String>,
    pub related_files: Vec<FileSummary>,
    pub layers: Vec<LayerInfo>,
    pub open_questions: Vec<String>,
    pub rust_version: Option<String>,
    pub validation: HandoffValidation,
}

/// The progress of the current task as the progress store keeps it.
#[derive(Debug, Clone)]
pub struct ProgressLog {
    pub task_name: String,
    pub description: String,
    pub status: String,
    pub started_at: String,
    pub updated_at: String,
    pub next_steps: Vec<NextStep>,
}

/// Where progress is kept; implemented by the users of the service. The
/// spec function names the answers the store may give, and nothing more is
/// assumed of them; a store that does not describe them may give any.
pub trait ProgressStorePort {
    /// `r` is an answer the store may give to loading the current progress.
    closed spec fn loads_current(&self, project_path: Seq<char>, r: CellResult<Option<ProgressLog>>) -> bool {
        true
    }

    fn load_current(&self, project_path: &str) -> (r: CellResult<Option<ProgressLog>>)
        ensures
            self.loads_current(project_path@, r),
    ;
}

/// Where packages are written and read; implemented by the users of the
/// service. The spec functions name the answers the exporter may give, and
/// nothing more is assumed of them; one that does not describe them may give
/// any.
pub trait HandoffExporterPort {
    /// `r` is an answer the exporter may give to writing `package` as JSON to `output_path`.
    closed spec fn exports_json(&self, package: HandoffPackage, output_path: Seq<char>, r: CellResult<String>) -> bool {
        true
    }

    /// `r` is an answer the exporter may give to writing `package` as Markdown to `output_path`.
    closed spec fn exports_markdown(&self, package: HandoffPackage, output_path: Seq<char>, r: CellResult<String>) -> bool {
        true
    }

    /// `r` is an answer the exporter may give to reading a package from `path`.
    closed spec fn imports_json(&self, path: Seq<char>, r: CellResult<HandoffPackage>) -> bool {
        true
    }

    fn export_json(&self, package: &HandoffPackage, output_path: &str) -> (r: CellResult<String>)
        ensures
            self.exports_json(*package, output_path@, r),
    ;

    fn export_markdown(&self, package: &HandoffPackage, output_path: &str) -> (r: CellResult<String>)
        ensures
            self.exports_markdown(*package, output_path@, r),
    ;

    fn import_json(&self, path: &str) -> (r: CellResult<HandoffPackage>)
        ensures
            self.imports_json(path@, r),
    ;
}

/// What the file system tells about the project, gathered by the caller.
#[derive(Debug, Clone)]
pub struct ProjectFacts {
    /// The layer directories present under `src`, in layer order, with their file counts.
    pub layer_files: Vec<(String, usize)>,
    /// Whether the project keeps a decision log.
    pub has_decision_log: bool,
    /// Candidate recent files: sources, `Cargo.toml` and `README.md`.
    pub recent_files: Vec<RecentFileInfo>,
    /// The files under `src` with their line counts.
    pub source_files: Vec<(String, usize)>,
    /// The open-task list, if the project has one.
    pub todo: Option<String>,
    pub rust_version: Option<String>,
}

/// The purpose written for a layer directory.
pub open spec fn layer_purpose(layer: Seq<char>) -> Seq<char> {
    if layer == "domain"@ {
        "领域内核：核心业务模型、实体、值对象、领域服务"@
    } else if layer == "application"@ {
        "应用层：用例编排、Port接口、应用服务"@
    } else if layer == "adapters"@ {
        "适配器层：技术实现、外部系统对接"@
    } else if layer == "interfaces"@ {
        "接口层：CLI/API/UI等外部接入点"@
    } else {
        layer + " layer"@
    }
}

/// The role of a source file, judged from its path (case-insensitively).
pub open spec fn file_role(path: Seq<char>) -> Seq<char> {
    let l = unicode_lowercase(path);
    if contains(l, "domain"@) {
        "领域模型"@
    } else if contains(l, "application"@) && contains(l, "service"@) {
        "应用服务"@
    } else if contains(l, "application"@) && contains(l, "port"@) {
        "端口接口"@
    } else if contains(l, "adapter"@) {
        "适配器"@
    } else if contains(l, "interface"@) || contains(l, "cli"@) {
        "接口层"@
    } else if contains(l, "test"@) {
        "测试"@
    } else {
        "其他"@
    }
}

/// The open question of a task-list line: an unchecked item, without its box.
pub open spec fn open_item(line: Seq<char>) -> Option<Seq<char>> {
    let t = trim(line);
    if starts_with(t, "- [ ]"@) || starts_with(t, "* [ ]"@) {
        Some(trim_start_matches(trim_start_matches(t, "- [ ] "@), "* [ ] "@))
    } else {
        None
    }
}

/// The open questions of a task list, in order.
pub open spec fn open_items(ls: Seq<Seq<char>>) -> Seq<Seq<char>>
    decreases ls.len(),
{
    if ls.len() == 0 {
        Seq::empty()
    } else {
        open_items(ls.drop_last()) + match open_item(ls.last()) {
            Some(q) => seq![q],
            None => Seq::empty(),
        }
    }
}

/// The rules every package states; one more where decisions are logged.
pub open spec fn development_rules(has_decision_log: bool) -> Seq<Seq<char>> {
    seq![
        "严格遵循四层架构（domain/application/adapters/interfaces），依赖只能向内"@,
        "domain 层不能依赖任何外部框架或库（除了基础标准库）"@,
        "使用 Cell 架构的 Port/Adapter 模式进行外部依赖隔离"@,
        "所有公共 API 必须有单元测试覆盖"@,
        "代码提交前必须通过 cargo clippy 和 cargo fmt 检查"@,
        "架构约束通过编译期测试强制执行（architecture_tests）"@,
        "熵值阈值不超过 60，超过必须先优化再继续开发"@,
    ] + if has_decision_log { seq!["重要技术决策必须记录到决策日志（cell decision new）"@] } else { Seq::empty() }
}

/// The first steps every package gives the next developer.
pub open spec fn quick_start_steps() -> Seq<Seq<char>> {
    seq![
        "第一步：阅读本交接包，了解项目现状和当前任务"@,
        "第二步：运行 `cell tools status` 查看可用工具"@,
        "第三步：运行 `cell dashboard` 打开可视化仪表盘了解全局状态"@,
        "第四步：运行 `cargo test` 确认所有测试通过"@,
        "第五步：查看决策记录（cell decision list）了解技术选型背景"@,
        "第六步：从 next_actions 中选择最高优先级任务开始开发"@,
        "开发过程中随时使用 `cell progress log` 记录进度"@,
        "遇到阻塞使用 `cell progress block` 记录，解除后用 `cell progress unblock`"@,
    ]
}

/// The fields a package still lacks.
pub open spec fn missing_fields(p: HandoffPackage) -> Seq<Seq<char>> {
    (if p.project_name@.len() == 0 { seq!["project_name"@] } else { Seq::empty() })
        + (if p.current_task.name@.len() == 0 { seq!["current_task.name"@] } else { Seq::empty() })
        + (if p.next_actions@.len() == 0 { seq!["next_actions"@] } else { Seq::empty() })
}

pub open spec fn recent_first_at(fs: Seq<RecentFileInfo>, i: int) -> bool {
    !lex_lt(fs[i].last_modified@, fs[i + 1].last_modified@)
}

/// Most recently modified first.
pub open spec fn most_recent_first(fs: Seq<RecentFileInfo>) -> bool {
    forall|i: int| 0 <= i < fs.len() - 1 ==> #[trigger] recent_first_at(fs, i)
}

fn layer_purpose_of(layer: &str) -> (r: String)
    ensures
        r@ == layer_purpose(layer@),
{
    if str_eq(layer, "domain") {
        owned("领域内核：核心业务模型、实体、值对象、领域服务")
    } else if str_eq(layer, "application") {
        owned("应用层：用例编排、Port接口、应用服务")
    } else if str_eq(layer, "adapters") {
        owned("适配器层：技术实现、外部系统对接")
    } else if str_eq(layer, "interfaces") {
        owned("接口层：CLI/API/UI等外部接入点")
    } else {
        let mut r = owned(layer);
        push_str(&mut r, " layer");
        r
    }
}

/// The role of a source file.
pub fn detect_file_role(path: &str) -> (r: String)
    ensures
        r@ == file_role(path@),
{
    let lower = to_lowercase(path);
    let l = to_chars(lower.as_str());
    let l = l.as_slice();
    if has_text(l, "domain") {
        owned("领域模型")
    } else if has_text(l, "application") && has_text(l, "service") {
        owned("应用服务")
    } else if has_text(l, "application") && has_text(l, "port") {
        owned("端口接口")
    } else if has_text(l, "adapter") {
        owned("适配器")
    } else if has_text(l, "interface") || has_text(l, "cli") {
        owned("接口层")
    } else if has_text(l, "test") {
        owned("测试")
    } else {
        owned("其他")
    }
}

/// The open questions of a task list.
pub fn collect_open_questions(todo: &str) -> (r: Vec<String>)
    ensures
        string_views(r@) == open_items(lines(todo@)),
{
    let ls = str_lines(todo);
    let ghost lv = views(ls@);
    let mut out: Vec<String> = Vec::new();
    for i in 0..ls.len()
        invariant
            lv == views(ls@),
            lv == lines(todo@),
            string_views(out@) == open_items(lv.take(i as int)),
    {
        assert(lv.take(i + 1).drop_last() =~= lv.take(i as int));
        assert(lv[i as int] == ls@[i as int]@);
        let t = trim_chars(ls[i].as_slice());
        let ghost before = string_views(out@);
        if begins(t.as_slice(), "- [ ]") || begins(t.as_slice(), "* [ ]") {
            let a = trim_start_matches_exec(t.as_slice(), "- [ ] ");
            let b = trim_start_matches_exec(a.as_slice(), "* [ ] ");
            let q = from_chars(b.as_slice());
            out.push(q);
            assert(string_views(out@) =~= before.push(q@));
        }
        assert(string_views(out@) =~= open_items(lv.take(i + 1)));
    }
    assert(lv.take(ls@.len() as int) =~= lv);
    out
}

/// The development rules of a package.
pub fn build_development_rules(has_decision_log: bool) -> (r: Vec<String>)
    ensures
        string_views(r@) == development_rules(has_decision_log),
{
    let mut v: Vec<String> = Vec::new();
    v.push(owned("严格遵循四层架构（domain/application/adapters/interfaces），依赖只能向内"));
    v.push(owned("domain 层不能依赖任何外部框架或库（除了基础标准库）"));
    v.push(owned("使用 Cell 架构的 Port/Adapter 模式进行外部依赖隔离"));
    v.push(owned("所有公共 API 必须有单元测试覆盖"));
    v.push(owned("代码提交前必须通过 cargo clippy 和 cargo fmt 检查"));
    v.push(owned("架构约束通过编译期测试强制执行（architecture_tests）"));
    v.push(owned("熵值阈值不超过 60，超过必须先优化再继续开发"));
    if has_decision_log {
        v.push(owned("重要技术决策必须记录到决策日志（cell decision new）"));
    }
    assert(string_views(v@) =~= development_rules(has_decision_log));
    v
}

/// The first steps for the next developer.
pub fn build_quick_start() -> (r: Vec<String>)
    ensures
        string_views(r@) == quick_start_steps(),
{
    let mut v: Vec<String> = Vec::new();
    v.push(owned("第一步：阅读本交接包，了解项目现状和当前任务"));
    v.push(owned("第二步：运行 `cell tools status` 查看可用工具"));
    v.push(owned("第三步：运行 `cell dashboard` 打开可视化仪表盘了解全局状态"));
    v.push(owned("第四步：运行 `cargo test` 确认所有测试通过"));
    v.push(owned("第五步：查看决策记录（cell decision list）了解技术选型背景"));
    v.push(owned("第六步：从 next_actions 中选择最高优先级任务开始开发"));
    v.push(owned("开发过程中随时使用 `cell progress log` 记录进度"));
    v.push(owned("遇到阻塞使用 `cell progress block` 记录，解除后用 `cell progress unblock`"));
    assert(string_views(v@) =~= quick_start_steps());
    v
}

/// Where `d` goes into the newest-first list `out`: before the first file
/// strictly older than it, so after those of the same time.
pub open spec fn insert_pos(out: Seq<RecentFileInfo>, d: RecentFileInfo) -> int
    decreases out.len(),
{
    if out.len() == 0 {
        0
    } else if lex_lt(out[0].last_modified@, d.last_modified@) {
        0
    } else {
        1 + insert_pos(out.drop_first(), d)
    }
}

/// The files newest first; files of the same time keep their order.
pub open spec fn newest_first(fs: Seq<RecentFileInfo>) -> Seq<RecentFileInfo>
    decreases fs.len(),
{
    if fs.len() == 0 {
        Seq::empty()
    } else {
        let s = newest_first(fs.drop_last());
        s.insert(insert_pos(s, fs.last()), fs.last())
    }
}

proof fn lemma_insert_pos(out: Seq<RecentFileInfo>, d: RecentFileInfo, p: int)
    requires
        0 <= p <= out.len(),
        forall|j: int| 0 <= j < p ==> !lex_lt(#[trigger] out[j].last_modified@, d.last_modified@),
        p == out.len() || lex_lt(out[p].last_modified@, d.last_modified@),
    ensures
        insert_pos(out, d) == p,
    decreases p,
{
    if p > 0 {
        let rest = out.drop_first();
        assert(!lex_lt(out[0].last_modified@, d.last_modified@));
        assert forall|j: int| 0 <= j < p - 1 implies !lex_lt(#[trigger] rest[j].last_modified@, d.last_modified@) by {
            assert(rest[j] == out[j + 1]);
        }
        if p < out.len() {
            assert(rest[p - 1] == out[p]);
        }
        lemma_insert_pos(rest, d, p - 1);
    }
}

/// The twenty most recently modified files, newest first (a stable sort).
pub fn most_recent_files(files: Vec<RecentFileInfo>) -> (r: Vec<RecentFileInfo>)
    ensures
        most_recent_first(r@),
        r@.len() == if files@.len() > 20 { 20 } else { files@.len() },
        forall|i: int| 0 <= i < r@.len() ==> files@.contains(#[trigger] r@[i]),
        exists|s: Seq<RecentFileInfo>| #[trigger] s.to_multiset() == files@.to_multiset() && most_recent_first(s)
            && r@ == s.take(r@.len() as int),
        r@ == newest_first(files@).take(r@.len() as int),
{
    let ghost input = files@;
    let mut rest = files;
    let mut out: Vec<RecentFileInfo> = Vec::new();
    let n = rest.len();
    let mut i: usize = 0;
    while i < n
        invariant
            n == input.len(),
            i <= n,
            rest@ == input.skip(i as int),
            out@.to_multiset() == input.take(i as int).to_multiset(),
            most_recent_first(out@),
            out@ == newest_first(input.take(i as int)),
        decreases n - i,
    {
        let d = rest.remove(0);
        assert(d == input[i as int]);
        assert(input.skip(i + 1) =~= input.skip(i as int).remove(0));
        assert(input.take(i + 1) =~= input.take(i as int).push(d));
        let mut p: usize = 0;
        while p < out.len()
            invariant
                p <= out@.len(),
                forall|j: int| 0 <= j < p ==> !lex_lt(#[trigger] out@[j].last_modified@, d.last_modified@),
            ensures
                p <= out@.len(),
                forall|j: int| 0 <= j < p ==> !lex_lt(#[trigger] out@[j].last_modified@, d.last_modified@),
                p < out@.len() ==> lex_lt(out@[p as int].last_modified@, d.last_modified@),
            decreases out@.len() - p,
        {
            if lex_less(out[p].last_modified.as_str(), d.last_modified.as_str()) {
                break;
            }
            p = p + 1;
        }
        let ghost before = out@;
        proof {
            if p < before.len() {
                lemma_lex_lt_asym(before[p as int].last_modified@, d.last_modified@);
            }
            lemma_insert_pos(before, d, p as int);
            assert(input.take(i + 1).drop_last() =~= input.take(i as int));
            assert(input.take(i + 1).last() == d);
        }
        out.insert(p, d);
        proof {
            assert(out@ == before.insert(p as int, d));
            assert forall|j: int| 0 <= j < out@.len() - 1 implies #[trigger] recent_first_at(out@, j) by {
                if j < p as int - 1 {
                    assert(recent_first_at(before, j));
                } else if j == p as int - 1 {
                    assert(!lex_lt(before[j].last_modified@, d.last_modified@));
                } else if j == p as int {
                    assert(lex_lt(before[p as int].last_modified@, d.last_modified@));
                } else {
                    assert(recent_first_at(before, j - 1));
                }
            }
        }
        i = i + 1;
    }
    assert(input.take(n as int) =~= input);
    let ghost sorted = out@;
    assert(sorted.to_multiset().len() == sorted.len());
    assert(input.to_multiset().len() == input.len());
    assert(sorted.len() == input.len());
    out.truncate(20);
    proof {
        assert forall|k: int| 0 <= k < out@.len() implies input.contains(#[trigger] out@[k]) by {
            assert(out@[k] == sorted[k]);
            assert(sorted.to_multiset().count(sorted[k]) > 0);
            assert(input.to_multiset().count(sorted[k]) > 0);
        }
        assert forall|j: int| 0 <= j < out@.len() - 1 implies #[trigger] recent_first_at(out@, j) by {
            assert(recent_first_at(sorted, j));
        }
        assert(out@ =~= sorted.take(out@.len() as int));
        assert(sorted.to_multiset() == input.to_multiset());
        assert(most_recent_first(sorted));
    }
    out
}

impl HandoffPackage {
    /// An empty package for the project.
    pub fn new(project_name: &str) -> (r: Self)
        ensures
            r.project_name@ == project_name@,
            r.current_task.name@.len() == 0,
            no_task(r.current_task),
            r.next_actions@.len() == 0,
            r.decisions@.len() == 0,
            r.generated_by is None,
            r.project_overview.architecture_style@ == "Cell Architecture (Hexagonal + DDD)"@,
            r.project_overview.name@ == project_name@,
    {
        let mut tech: Vec<String> = Vec::new();
        tech.push(owned("Rust"));
        HandoffPackage {
            package_id: new_uuid(),
            project_name: owned(project_name),
            generated_by: None,
            generated_at: now_rfc3339(),
            project_overview: ProjectOverview {
                name: owned(project_name),
                description: String::new(),
                architecture_style: owned("Cell Architecture (Hexagonal + DDD)"),
                tech_stack: tech,
                key_directories: Vec::new(),
            },
            current_task: TaskContext {
                name: String::new(),
                description: String::new(),
                status: String::new(),
                started_at: None,
                last_activity_at: None,
            },
            next_actions: Vec::new(),
            decisions: Vec::new(),
            recent_files: Vec::new(),
            development_rules: Vec::new(),
            quick_start: Vec::new(),
            related_files: Vec::new(),
            layers: Vec::new(),
            open_questions: Vec::new(),
            rust_version: None,
            validation: HandoffValidation { is_complete: false, missing_fields: Vec::new() },
        }
    }

    /// Records what the package lacks; it is complete when nothing does.
    pub fn validate(&mut self) -> (r: &HandoffValidation)
        ensures
            string_views(r.missing_fields@) == missing_fields(*old(self)),
            r.is_complete == (missing_fields(*old(self)).len() == 0),
            *final(self) == (HandoffPackage { validation: final(self).validation, ..*old(self) }),
            string_views(final(self).validation.missing_fields@) == missing_fields(*old(self)),
    {
        let mut missing: Vec<String> = Vec::new();
        if to_chars(self.project_name.as_str()).len() == 0 {
            missing.push(owned("project_name"));
        }
        if to_chars(self.current_task.name.as_str()).len() == 0 {
            missing.push(owned("current_task.name"));
        }
        if self.next_actions.len() == 0 {
            missing.push(owned("next_actions"));
        }
        assert(string_views(missing@) =~= missing_fields(*old(self)));
        let complete = missing.len() == 0;
        self.validation = HandoffValidation { is_complete: complete, missing_fields: missing };
        &self.validation
    }
}

pub open spec fn md_list(items: Seq<Seq<char>>) -> Seq<char>
    decreases items.len(),
{
    if items.len() == 0 { Seq::empty() } else { md_list(items.drop_last()) + "- "@ + items.last() + "\n"@ }
}

/// The Markdown form of a package: title, overview, current task, rules
/// and open questions.
pub open spec fn package_markdown(p: HandoffPackage) -> Seq<char> {
    "# 交接包: "@ + p.project_name@ + "\n\n"@
        + "## 1. 项目概览\n\n"@ + "- 架构风格: "@ + p.project_overview.architecture_style@ + "\n\n"@
        + "## 2. 当前任务\n\n"@ + "- 名称: "@ + p.current_task.name@ + "\n\n"@
        + "## 3. 开发规则\n\n"@ + md_list(string_views(p.development_rules@)) + "\n"@
        + "## 4. 待解决问题\n\n"@ + md_list(string_views(p.open_questions@))
}

fn push_md_list(o: &mut String, items: &Vec<String>)
    ensures
        final(o)@ == old(o)@ + md_list(string_views(items@)),
{
    let ghost iv = string_views(items@);
    let ghost o0 = o@;
    for i in 0..items.len()
        invariant
            iv == string_views(items@),
            o@ == o0 + md_list(iv.take(i as int)),
    {
        assert(iv.take(i + 1).drop_last() =~= iv.take(i as int));
        assert(iv.take(i + 1).last() == items@[i as int]@);
        push_str(o, "- ");
        push_str(o, items[i].as_str());
        push_str(o, "\n");
        assert(o@ =~= o0 + md_list(iv.take(i + 1)));
    }
    assert(iv.take(iv.len() as int) =~= iv);
}

impl HandoffPackage {
    /// The Markdown form of the package.
    pub fn to_markdown(&self) -> (r: String)
        ensures
            r@ == package_markdown(*self),
    {
        let mut o = owned("# 交接包: ");
        push_str(&mut o, self.project_name.as_str());
        push_str(&mut o, "\n\n");
        push_str(&mut o, "## 1. 项目概览\n\n");
        push_str(&mut o, "- 架构风格: ");
        push_str(&mut o, self.project_overview.architecture_style.as_str());
        push_str(&mut o, "\n\n");
        push_str(&mut o, "## 2. 当前任务\n\n");
        push_str(&mut o, "- 名称: ");
        push_str(&mut o, self.current_task.name.as_str());
        push_str(&mut o, "\n\n");
        push_str(&mut o, "## 3. 开发规则\n\n");
        push_md_list(&mut o, &self.development_rules);
        push_str(&mut o, "\n");
        push_str(&mut o, "## 4. 待解决问题\n\n");
        push_md_list(&mut o, &self.open_questions);
        assert(o@ =~= package_markdown(*self));
        o
    }
}

/// The next actions of a progress log: its steps not yet done.
pub open spec fn pending_steps(ss: Seq<NextStep>) -> Seq<Seq<char>>
    decreases ss.len(),
{
    if ss.len() == 0 {
        Seq::empty()
    } else {
        pending_steps(ss.drop_last()) + if !ss.last().done { seq![ss.last().description@] } else { Seq::empty() }
    }
}

/// The open steps as next actions: identifier, description, priority and
/// estimate.
pub open spec fn pending_actions(ss: Seq<NextStep>) -> Seq<(Seq<char>, Seq<char>, u8, Option<u32>)>
    decreases ss.len(),
{
    if ss.len() == 0 {
        Seq::empty()
    } else {
        pending_actions(ss.drop_last()) + if !ss.last().done {
            seq![(ss.last().id@, ss.last().description@, ss.last().priority, ss.last().estimated_minutes)]
        } else {
            Seq::empty()
        }
    }
}

/// Next actions as plain values.
pub open spec fn action_views(a: Seq<NextActionItem>) -> Seq<(Seq<char>, Seq<char>, u8, Option<u32>)> {
    a.map_values(|x: NextActionItem| (x.id@, x.description@, x.priority, x.estimated_minutes))
}

/// The task of a package for which no progress is known: all empty.
pub open spec fn no_task(t: TaskContext) -> bool {
    &&& t.name@.len() == 0
    &&& t.description@.len() == 0
    &&& t.status@.len() == 0
    &&& t.started_at is None
    &&& t.last_activity_at is None
}

/// The task of a package taken from a progress log.
pub open spec fn task_of(t: TaskContext, log: ProgressLog) -> bool {
    &&& t.name@ == log.task_name@
    &&& t.description@ == log.description@
    &&& t.status@ == log.status@
    &&& t.started_at matches Some(s) && s@ == log.started_at@
    &&& t.last_activity_at matches Some(u) && u@ == log.updated_at@
}

pub open spec fn action_descriptions(a: Seq<NextActionItem>) -> Seq<Seq<char>> {
    a.map_values(|x: NextActionItem| x.description@)
}

fn next_actions_of(steps: &Vec<NextStep>) -> (r: Vec<NextActionItem>)
    ensures
        action_descriptions(r@) == pending_steps(steps@),
        action_views(r@) == pending_actions(steps@),
{
    let mut out: Vec<NextActionItem> = Vec::new();
    for i in 0..steps.len()
        invariant
            action_descriptions(out@) == pending_steps(steps@.take(i as int)),
            action_views(out@) == pending_actions(steps@.take(i as int)),
    {
        assert(steps@.take(i + 1).drop_last() =~= steps@.take(i as int));
        let s = &steps[i];
        if !s.done {
            let ghost before = action_descriptions(out@);
            let ghost before_v = action_views(out@);
            let item = NextActionItem {
                id: s.id.clone(),
                description: s.description.clone(),
                priority: s.priority,
                estimated_minutes: s.estimated_minutes,
            };
            out.push(item);
            assert(action_descriptions(out@) =~= before.push(s.description@));
            assert(action_views(out@) =~= before_v.push((s.id@, s.description@, s.priority, s.estimated_minutes)));
        }
        assert(action_descriptions(out@) =~= pending_steps(steps@.take(i + 1)));
        assert(action_views(out@) =~= pending_actions(steps@.take(i + 1)));
    }
    assert(steps@.take(steps@.len() as int) =~= steps@);
    out
}

/// Builds handoff packages from the stores and the facts of the project.
pub struct HandoffService<E: HandoffExporterPort, P: ProgressStorePort, D: DecisionStorePort> {
    exporter: E,
    progress_store: P,
    decision_store: D,
}

impl<E: HandoffExporterPort, P: ProgressStorePort, D: DecisionStorePort> HandoffService<E, P, D> {
    pub fn new(exporter: E, progress_store: P, decision_store: D) -> (r: Self)
        ensures
            r.exporter() == exporter,
            r.progress_store() == progress_store,
            r.decision_store() == decision_store,
    {
        HandoffService { exporter, progress_store, decision_store }
    }

    /// Where packages are written and read.
    pub closed spec fn exporter(&self) -> E {
        self.exporter
    }

    /// Where progress is kept.
    pub closed spec fn progress_store(&self) -> P {
        self.progress_store
    }

    /// Where decisions are kept.
    pub closed spec fn decision_store(&self) -> D {
        self.decision_store
    }

    /// The package for the project: overview with its layer directories,
    /// the current task and its open steps (when progress is kept), the
    /// decisions, the recent files, rules, quick start, file roles, layers
    /// and open questions; then validated.
    pub fn generate(&self, project_path: &str, project_name: &str, author: Option<&str>, facts: ProjectFacts)
        -> (r: CellResult<HandoffPackage>)
        ensures
            r is Ok,
            r matches Ok(p) ==> {
                &&& p.project_name@ == project_name@
                &&& p.layers@.len() == facts.layer_files@.len()
                &&& p.project_overview.key_directories@.len() == facts.layer_files@.len()
                &&& forall|i: int| 0 <= i < facts.layer_files@.len() ==> {
                    let (name, count) = #[trigger] facts.layer_files@[i];
                    &&& p.layers@[i].name@ == name@
                    &&& p.layers@[i].file_count == count
                    &&& p.project_overview.key_directories@[i].path@ == "src/"@ + name@
                    &&& p.project_overview.key_directories@[i].purpose@ == layer_purpose(name@)
                    &&& p.project_overview.key_directories@[i].file_count == count
                }
                &&& p.related_files@.len() == facts.source_files@.len()
                &&& forall|i: int| 0 <= i < facts.source_files@.len() ==> {
                    let (path, loc) = #[trigger] facts.source_files@[i];
                    &&& p.related_files@[i].path@ == path@
                    &&& p.related_files@[i].role@ == file_role(path@)
                    &&& p.related_files@[i].lines_of_code == loc
                }
                &&& string_views(p.quick_start@) == quick_start_steps()
                &&& p.rust_version == facts.rust_version
                &&& opt_view(p.generated_by) == match author {
                    Some(a) => Some(a@),
                    None => None::<Seq<char>>,
                }
                &&& p.project_overview.architecture_style@ == "Cell Architecture (Hexagonal + DDD)"@
                &&& p.project_overview.name@ == project_name@
                &&& string_views(p.development_rules@) == development_rules(facts.has_decision_log)
                &&& most_recent_first(p.recent_files@)
                &&& p.recent_files@.len() <= 20
                &&& (facts.todo matches Some(t) ==> string_views(p.open_questions@) == open_items(lines(t@)))
                &&& (facts.todo is None ==> p.open_questions@.len() == 0)
                &&& string_views(p.validation.missing_fields@) == missing_fields(p)
            },
            r matches Ok(p) && exists|a: CellResult<Option<ProgressLog>>|
                #[trigger] self.progress_store().loads_current(project_path@, a) && match a {
                    Ok(Some(log)) => task_of(p.current_task, log) && action_views(p.next_actions@)
                        == pending_actions(log.next_steps@),
                    _ => no_task(p.current_task) && p.next_actions@.len() == 0,
                },
            r matches Ok(p) && exists|d: CellResult<Vec<DecisionRecord>>|
                #[trigger] self.decision_store().loads_all(project_path@, d) && match d {
                    Ok(ds) => p.decisions@ == ds@,
                    Err(_) => p.decisions@.len() == 0,
                },
    {
        let mut pkg = HandoffPackage::new(project_name);
        pkg.generated_by = match author {
            Some(a) => Some(owned(a)),
            None => None,
        };
        let mut dirs: Vec<DirectoryInfo> = Vec::new();
        let mut layers: Vec<LayerInfo> = Vec::new();
        let nl = facts.layer_files.len();
        let mut i: usize = 0;
        while i < nl
            invariant
                nl == facts.layer_files@.len(),
                i <= nl,
                dirs@.len() == i,
                layers@.len() == i,
                forall|k: int| 0 <= k < i ==> {
                    let (name, count) = #[trigger] facts.layer_files@[k];
                    &&& layers@[k].name@ == name@
                    &&& layers@[k].file_count == count
                    &&& dirs@[k].path@ == "src/"@ + name@
                    &&& dirs@[k].purpose@ == layer_purpose(name@)
                    &&& dirs@[k].file_count == count
                },
            decreases nl - i,
        {
            let (name, count) = (&facts.layer_files[i].0, facts.layer_files[i].1);
            let mut path = owned("src/");
            push_str(&mut path, name.as_str());
            dirs.push(DirectoryInfo { path, purpose: layer_purpose_of(name.as_str()), file_count: count });
            layers.push(LayerInfo { name: name.clone(), file_count: count });
            i = i + 1;
        }
        pkg.project_overview.key_directories = dirs;
        pkg.layers = layers;
        let pa = self.progress_store.load_current(project_path);
        assert(self.progress_store().loads_current(project_path@, pa));
        let ghost pag = pa;
        match pa {
            Ok(Some(progress)) => {
                pkg.current_task = TaskContext {
                    name: progress.task_name.clone(),
                    description: progress.description.clone(),
                    status: progress.status.clone(),
                    started_at: Some(progress.started_at.clone()),
                    last_activity_at: Some(progress.updated_at.clone()),
                };
                pkg.next_actions = next_actions_of(&progress.next_steps);
            },
            _ => {},
        }
        let da = self.decision_store.load_all(project_path);
        assert(self.decision_store().loads_all(project_path@, da));
        let ghost dag = da;
        match da {
            Ok(ds) => {
                pkg.decisions = ds;
            },
            Err(_) => {},
        }
        pkg.recent_files = most_recent_files(facts.recent_files);
        pkg.development_rules = build_development_rules(facts.has_decision_log);
        pkg.quick_start = build_quick_start();
        let mut related: Vec<FileSummary> = Vec::new();
        let ns = facts.source_files.len();
        let mut i: usize = 0;
        while i < ns
            invariant
                ns == facts.source_files@.len(),
                i <= ns,
                related@.len() == i,
                forall|k: int| 0 <= k < i ==> {
                    let (path, loc) = #[trigger] facts.source_files@[k];
                    &&& related@[k].path@ == path@
                    &&& related@[k].role@ == file_role(path@)
                    &&& related@[k].lines_of_code == loc
                },
            decreases ns - i,
        {
            let f = &facts.source_files[i];
            related.push(FileSummary { path: f.0.clone(), role: detect_file_role(f.0.as_str()), lines_of_code: f.1 });
            i = i + 1;
        }
        pkg.related_files = related;
        pkg.rust_version = facts.rust_version;
        pkg.open_questions = match &facts.todo {
            Some(t) => collect_open_questions(t.as_str()),
            None => Vec::new(),
        };
        let ghost before = pkg;
        pkg.validate();
        assert(missing_fields(before) =~= missing_fields(pkg));
        Ok(pkg)
    }

    /// Writes the package as JSON through the exporter.
    pub fn export_json(&self, package: &HandoffPackage, output_path: &str) -> (r: CellResult<String>)
        ensures
            self.exporter().exports_json(*package, output_path@, r),
    {
        self.exporter.export_json(package, output_path)
    }

    /// Writes the package as Markdown through the exporter.
    pub fn export_markdown(&self, package: &HandoffPackage, output_path: &str) -> (r: CellResult<String>)
        ensures
            self.exporter().exports_markdown(*package, output_path@, r),
    {
        self.exporter.export_markdown(package, output_path)
    }

    /// Reads a package through the exporter.
    pub fn import(&self, path: &str) -> (r: CellResult<HandoffPackage>)
        ensures
            self.exporter().imports_json(path@, r),
    {
        self.exporter.import_json(path)
    }

    /// Validates a package.
    pub fn validate_package(package: &mut HandoffPackage) -> (r: &HandoffValidation)
        ensures
            string_views(r.missing_fields@) == missing_fields(*old(package)),
            r.is_complete == (missing_fields(*old(package)).len() == 0),
    {
        package.validate()
    }
}

pub open spec fn opt_view(o: Option<String>) -> Option<Seq<char>> {
    match o {
        Some(s) => Some(s@),
        None => None,
    }
}

} // verus!
