//! Change-impact analysis: which modules and layers a set of changed files
//! touches, which tests to run, and how risky the change is.
use vstd::prelude::*;
use crate::text::{owned, push_str, to_chars, from_chars, from_char_range, chars_eq, replace_char, replace_char_in,
    trim_start_matches, trim_end_matches, trim_start_matches_exec, trim_end_matches_exec, first_index_of,
    find_char_from, lemma_first_index_of_bounds, starts_with, ends_with, contains, begins, has_text, finishes,
    unicode_lowercase, to_lowercase, words, trim, lines, views, split_words, trim_chars, parsed_usize, parse_usize,
    find_sub, before_first, lemma_find_sub_found, find_sub_exec, before_first_exec, sub_chars, str_lines, lex_lt,
    lex_less, lemma_lex_lt_asym, lemma_lex_lt_trans, lemma_lex_lt_total, str_eq, str_contains, str_starts_with,
    decimal, push_decimal, pad_right, push_padded, join, push_join};

verus! {

/// How a file changed.
#[derive(Debug, Clone, Copy, PartialEq, Eq, Structural)]
pub enum ChangeType {
    Added,
    Modified,
    Deleted,
    Renamed,
}

/// How strongly a module is affected, from weakest to strongest.
#[derive(Debug, Clone, Copy, PartialEq, Eq, Structural)]
pub enum ImpactLevel {
    Low,
    Medium,
    High,
    Critical,
}

/// The risk of a change as a whole.
#[derive(Debug, Clone, Copy, PartialEq, Eq, Structural)]
pub enum ImpactRisk {
    Low,
    Medium,
    High,
}

/// A changed source file with the module and layer it belongs to.
#[derive(Debug, Clone)]
pub struct ChangedFile {
    pub path: String,
    pub change_type: ChangeType,
    pub lines_added: usize,
    pub lines_deleted: usize,
    pub module: String,
    pub layer: String,
}

/// A module affected by the change.
#[derive(Debug, Clone)]
pub struct ImpactedModule {
    pub name: String,
    pub layer: String,
    pub impact_reason: String,
    pub impact_level: ImpactLevel,
    pub dependent_files: Vec<String>,
}

/// Totals over a change.
#[derive(Debug, Clone)]
pub struct ImpactSummary {
    pub total_changed_files: usize,
    pub total_impacted_modules: usize,
    pub total_lines_changed: usize,
    pub layers_affected: Vec<String>,
    pub cross_layer_changes: bool,
}

/// The full analysis of a change.
#[derive(Debug, Clone)]
pub struct ImpactAnalysis {
    pub changed_files: Vec<ChangedFile>,
    pub impacted_modules: Vec<ImpactedModule>,
    pub impacted_tests: Vec<String>,
    pub risk_level: ImpactRisk,
    pub summary: ImpactSummary,
    pub suggested_tests: Vec<String>,
}

/// Analyses the changes of the project rooted at `root`.
pub struct ImpactAnalysisService {
    root: String,
}

/// The rank of a level in its order (`Low` lowest).
pub open spec fn level_rank(l: ImpactLevel) -> int {
    match l {
        ImpactLevel::Low => 0,
        ImpactLevel::Medium => 1,
        ImpactLevel::High => 2,
        ImpactLevel::Critical => 3,
    }
}

/// A path with back slashes turned into slashes and leading `src/` removed.
pub open spec fn module_path_of(path: Seq<char>) -> Seq<char> {
    trim_start_matches(replace_char(path, '\\', '/'), "src/"@)
}

/// The module a source path belongs to: `root` for the crate root files, the
/// file stem for a top-level file, and `top::second` for nested files.
pub open spec fn module_name_of(path: Seq<char>) -> Seq<char> {
    let p = module_path_of(path);
    let k = first_index_of(p, '/');
    if k >= p.len() {
        if p == "main.rs"@ || p == "lib.rs"@ {
            "root"@
        } else {
            trim_end_matches(p, ".rs"@)
        }
    } else {
        let top = p.take(k);
        let rest = p.skip(k + 1);
        let second = rest.take(first_index_of(rest, '/'));
        if ends_with(second, ".rs"@) {
            top + "::"@ + trim_end_matches(second, ".rs"@)
        } else {
            top + "::"@ + second
        }
    }
}

/// A path lies in the named layer.
pub open spec fn path_in(p: Seq<char>, layer: Seq<char>) -> bool {
    starts_with(p, "src/"@ + layer + "/"@) || contains(p, "/"@ + layer + "/"@) || starts_with(p, layer + "/"@)
}

/// The layer of a source path, `other` when it lies in none.
pub open spec fn layer_of_path(path: Seq<char>) -> Seq<char> {
    let p = replace_char(path, '\\', '/');
    if path_in(p, "domain"@) {
        "domain"@
    } else if path_in(p, "application"@) {
        "application"@
    } else if path_in(p, "adapters"@) {
        "adapters"@
    } else if path_in(p, "interfaces"@) {
        "interfaces"@
    } else {
        "other"@
    }
}

/// The layer a module name starts with (case-insensitively), `other` when none.
pub open spec fn layer_of_module(module: Seq<char>) -> Seq<char> {
    let lower = unicode_lowercase(module);
    if starts_with(lower, "domain"@) {
        "domain"@
    } else if starts_with(lower, "application"@) {
        "application"@
    } else if starts_with(lower, "adapters"@) {
        "adapters"@
    } else if starts_with(lower, "interfaces"@) {
        "interfaces"@
    } else {
        "other"@
    }
}

fn in_layer(p: &[char], slash_layer_slash: &str, src_prefix: &str, layer_slash: &str) -> (r: bool)
    ensures
        r == (starts_with(p@, src_prefix@) || contains(p@, slash_layer_slash@) || starts_with(p@, layer_slash@)),
{
    begins(p, src_prefix) || has_text(p, slash_layer_slash) || begins(p, layer_slash)
}

impl ImpactAnalysisService {
    /// The project root the service analyses.
    pub closed spec fn root_path(&self) -> Seq<char> {
        self.root@
    }

    /// A service for the project rooted at `root`.
    pub fn new(root: &str) -> (r: Self)
        ensures
            r.root_path() == root@,
    {
        ImpactAnalysisService { root: owned(root) }
    }

    /// The project root.
    pub fn root(&self) -> (r: &str)
        ensures
            r@ == self.root_path(),
    {
        self.root.as_str()
    }

    /// The module a source path belongs to.
    pub fn get_module_name(&self, path: &str) -> (r: String)
        ensures
            r@ == module_name_of(path@),
    {
        let c = to_chars(path);
        let c = replace_char_in(c.as_slice(), '\\', '/');
        let p = trim_start_matches_exec(c.as_slice(), "src/");
        let ghost pv = module_path_of(path@);
        assert(p@ == pv);
        let k = find_char_from(p.as_slice(), '/', 0);
        proof {
            assert(p@.skip(0) =~= p@);
            lemma_first_index_of_bounds(p@, '/');
        }
        if k >= p.len() {
            let m = to_chars("main.rs");
            let l = to_chars("lib.rs");
            if chars_eq(p.as_slice(), m.as_slice()) || chars_eq(p.as_slice(), l.as_slice()) {
                return owned("root");
            }
            let t = trim_end_matches_exec(p.as_slice(), ".rs");
            return from_chars(t.as_slice());
        }
        let top = from_char_range(p.as_slice(), 0, k);
        let j = find_char_from(p.as_slice(), '/', k + 1);
        let ghost rest = pv.skip(k + 1);
        let mut second: Vec<char> = Vec::new();
        let mut i = k + 1;
        while i < j
            invariant
                k + 1 <= i <= j <= p@.len(),
                second@ == p@.subrange(k + 1, i as int),
            decreases j - i,
        {
            second.push(p[i]);
            assert(p@.subrange(k + 1, i + 1) =~= p@.subrange(k + 1, i as int).push(p@[i as int]));
            i = i + 1;
        }
        assert(second@ =~= rest.take(first_index_of(rest, '/')));
        assert(top@ =~= pv.take(k as int));
        if finishes(second.as_slice(), ".rs") {
            let t = trim_end_matches_exec(second.as_slice(), ".rs");
            let mut r = top;
            push_str(&mut r, "::");
            crate::text::push_chars(&mut r, t.as_slice());
            r
        } else {
            let mut r = top;
            push_str(&mut r, "::");
            crate::text::push_chars(&mut r, second.as_slice());
            r
        }
    }

    /// The layer of a source path.
    pub fn detect_layer(&self, path: &str) -> (r: String)
        ensures
            r@ == layer_of_path(path@),
    {
        let c = to_chars(path);
        let p = replace_char_in(c.as_slice(), '\\', '/');
        proof {
            reveal_strlit("src/");
            reveal_strlit("/");
            reveal_strlit("domain");
            reveal_strlit("application");
            reveal_strlit("adapters");
            reveal_strlit("interfaces");
            reveal_strlit("src/domain/");
            reveal_strlit("/domain/");
            reveal_strlit("domain/");
            reveal_strlit("src/application/");
            reveal_strlit("/application/");
            reveal_strlit("application/");
            reveal_strlit("src/adapters/");
            reveal_strlit("/adapters/");
            reveal_strlit("adapters/");
            reveal_strlit("src/interfaces/");
            reveal_strlit("/interfaces/");
            reveal_strlit("interfaces/");
            assert("src/domain/"@ =~= "src/"@ + "domain"@ + "/"@);
            assert("/domain/"@ =~= "/"@ + "domain"@ + "/"@);
            assert("domain/"@ =~= "domain"@ + "/"@);
            assert("src/application/"@ =~= "src/"@ + "application"@ + "/"@);
            assert("/application/"@ =~= "/"@ + "application"@ + "/"@);
            assert("application/"@ =~= "application"@ + "/"@);
            assert("src/adapters/"@ =~= "src/"@ + "adapters"@ + "/"@);
            assert("/adapters/"@ =~= "/"@ + "adapters"@ + "/"@);
            assert("adapters/"@ =~= "adapters"@ + "/"@);
            assert("src/interfaces/"@ =~= "src/"@ + "interfaces"@ + "/"@);
            assert("/interfaces/"@ =~= "/"@ + "interfaces"@ + "/"@);
            assert("interfaces/"@ =~= "interfaces"@ + "/"@);
        }
        if in_layer(p.as_slice(), "/domain/", "src/domain/", "domain/") {
            owned("domain")
        } else if in_layer(p.as_slice(), "/application/", "src/application/", "application/") {
            owned("application")
        } else if in_layer(p.as_slice(), "/adapters/", "src/adapters/", "adapters/") {
            owned("adapters")
        } else if in_layer(p.as_slice(), "/interfaces/", "src/interfaces/", "interfaces/") {
            owned("interfaces")
        } else {
            owned("other")
        }
    }

    /// The layer a module name starts with.
    pub fn get_module_layer(&self, module: &str) -> (r: String)
        ensures
            r@ == layer_of_module(module@),
    {
        let lower = to_lowercase(module);
        let l = to_chars(lower.as_str());
        if begins(l.as_slice(), "domain") {
            owned("domain")
        } else if begins(l.as_slice(), "application") {
            owned("application")
        } else if begins(l.as_slice(), "adapters") {
            owned("adapters")
        } else if begins(l.as_slice(), "interfaces") {
            owned("interfaces")
        } else {
            owned("other")
        }
    }
}

/// The change a `git diff --name-status` letter stands for.
pub open spec fn change_of_letter(c: char) -> ChangeType {
    if c == 'A' {
        ChangeType::Added
    } else if c == 'D' {
        ChangeType::Deleted
    } else if c == 'R' {
        ChangeType::Renamed
    } else {
        ChangeType::Modified
    }
}

/// The change named by the status word of a line.
pub open spec fn change_of_word(w: Seq<char>) -> ChangeType {
    if w.len() > 0 {
        change_of_letter(w[0])
    } else {
        ChangeType::Modified
    }
}

/// What one line of `git diff --name-status` reports for a Rust source
/// file: the change and the (new) path; nothing for other lines.
pub open spec fn name_status_entry(line: Seq<char>) -> Option<(ChangeType, Seq<char>)> {
    let ws = words(trim(line));
    if ws.len() < 2 {
        None
    } else {
        let path = if ws.len() >= 3 { ws[2] } else { ws[1] };
        if ends_with(path, ".rs"@) {
            Some((change_of_word(ws[0]), path))
        } else {
            None
        }
    }
}

pub open spec fn or_zero(o: Option<usize>) -> usize {
    match o {
        Some(v) => v,
        None => 0,
    }
}

/// The added and deleted line counts that the first line of
/// `git diff --numstat` gives, zero where a count is missing or unreadable.
pub open spec fn numstat_counts(output: Seq<char>) -> (usize, usize) {
    let ls = lines(output);
    if ls.len() == 0 {
        (0, 0)
    } else {
        let ws = words(ls[0]);
        if ws.len() >= 2 {
            (or_zero(parsed_usize(ws[0])), or_zero(parsed_usize(ws[1])))
        } else {
            (0, 0)
        }
    }
}

/// The module a `use crate::a::b...;` line imports, as `a::b`.
pub open spec fn crate_dependency(line: Seq<char>) -> Option<Seq<char>> {
    let t = trim(line);
    if !starts_with(t, "use crate::"@) {
        None
    } else {
        let dep = before_first(trim_start_matches(t, "use crate::"@), ";"@);
        let k = find_sub(dep, "::"@);
        if k >= dep.len() {
            None
        } else {
            Some(dep.take(k as int) + "::"@ + before_first(dep.skip((k + 2) as int), "::"@))
        }
    }
}

/// A source file of the project as the analysis reads it.
#[derive(Debug, Clone)]
pub struct SourceFile {
    /// The path relative to the project root.
    pub path: String,
    /// The path relative to the source directory.
    pub src_path: String,
    /// The file's name.
    pub file_name: String,
    pub content: String,
}

/// The (imported module, importing module) pairs of the lines of a file.
pub open spec fn file_edges(module: Seq<char>, ls: Seq<Seq<char>>) -> Seq<(Seq<char>, Seq<char>)>
    decreases ls.len(),
{
    if ls.len() == 0 {
        Seq::empty()
    } else {
        file_edges(module, ls.drop_last()) + match crate_dependency(ls.last()) {
            Some(d) => seq![(d, module)],
            None => Seq::empty(),
        }
    }
}

/// The (imported module, importing module) pairs of all files, in order.
pub open spec fn source_edges(fs: Seq<SourceFile>) -> Seq<(Seq<char>, Seq<char>)>
    decreases fs.len(),
{
    if fs.len() == 0 {
        Seq::empty()
    } else {
        source_edges(fs.drop_last()) + file_edges(module_name_of(fs.last().src_path@), lines(fs.last().content@))
    }
}

pub open spec fn edge_views(es: Seq<(String, String)>) -> Seq<(Seq<char>, Seq<char>)> {
    es.map_values(|e: (String, String)| (e.0@, e.1@))
}

fn word_change(w: &Vec<char>) -> (r: ChangeType)
    ensures
        r == change_of_word(w@),
{
    if w.len() == 0 {
        return ChangeType::Modified;
    }
    let c = w[0];
    if c == 'A' {
        ChangeType::Added
    } else if c == 'D' {
        ChangeType::Deleted
    } else if c == 'R' {
        ChangeType::Renamed
    } else {
        ChangeType::Modified
    }
}

fn count_or_zero(w: &Vec<char>) -> (r: usize)
    ensures
        r == or_zero(parsed_usize(w@)),
{
    match parse_usize(w.as_slice()) {
        Some(v) => v,
        None => 0,
    }
}

impl ImpactAnalysisService {
    /// Reads one line of `git diff --name-status`.
    pub fn parse_name_status_line(line: &str) -> (r: Option<(ChangeType, String)>)
        ensures
            match r {
                Some((k, p)) => name_status_entry(line@) == Some((k, p@)),
                None => name_status_entry(line@) is None,
            },
    {
        let c = to_chars(line);
        let t = trim_chars(c.as_slice());
        let ws = split_words(t.as_slice());
        let ghost wv = views(ws@);
        if ws.len() < 2 {
            return None;
        }
        let idx: usize = if ws.len() >= 3 { 2 } else { 1 };
        assert(wv[idx as int] == ws@[idx as int]@);
        assert(wv[0] == ws@[0]@);
        if !finishes(ws[idx].as_slice(), ".rs") {
            return None;
        }
        let kind = word_change(&ws[0]);
        Some((kind, from_chars(ws[idx].as_slice())))
    }

    /// The added and deleted line counts in `git diff --numstat` output.
    pub fn parse_line_stats(output: &str) -> (r: (usize, usize))
        ensures
            r == numstat_counts(output@),
    {
        let ls = str_lines(output);
        if ls.len() == 0 {
            return (0, 0);
        }
        assert(views(ls@)[0] == ls@[0]@);
        let ws = split_words(ls[0].as_slice());
        if ws.len() >= 2 {
            assert(views(ws@)[0] == ws@[0]@);
            assert(views(ws@)[1] == ws@[1]@);
            (count_or_zero(&ws[0]), count_or_zero(&ws[1]))
        } else {
            (0, 0)
        }
    }

    /// A changed file with its module and layer.
    pub fn changed_file(&self, path: String, change_type: ChangeType, lines_added: usize, lines_deleted: usize) -> (r: ChangedFile)
        ensures
            r.path@ == path@,
            r.change_type == change_type,
            r.lines_added == lines_added,
            r.lines_deleted == lines_deleted,
            r.module@ == module_name_of(path@),
            r.layer@ == layer_of_path(path@),
    {
        let module = self.get_module_name(path.as_str());
        let layer = self.detect_layer(path.as_str());
        ChangedFile { path, change_type, lines_added, lines_deleted, module, layer }
    }

    /// The module a `use crate::...` line imports.
    pub fn use_dependency(line: &[char]) -> (r: Option<String>)
        ensures
            match r {
                Some(d) => crate_dependency(line@) == Some(d@),
                None => crate_dependency(line@) is None,
            },
    {
        let t = trim_chars(line);
        if !begins(t.as_slice(), "use crate::") {
            return None;
        }
        let a = trim_start_matches_exec(t.as_slice(), "use crate::");
        let dep = before_first_exec(a.as_slice(), ";");
        let sep = to_chars("::");
        let k = find_sub_exec(dep.as_slice(), sep.as_slice());
        proof {
            lemma_find_sub_found(dep@, "::"@);
            reveal_strlit("::");
        }
        if k >= dep.len() {
            return None;
        }
        let rest = sub_chars(dep.as_slice(), k + 2, dep.len());
        assert(rest@ =~= dep@.skip(k + 2));
        let second = before_first_exec(rest.as_slice(), "::");
        let mut r = from_char_range(dep.as_slice(), 0, k);
        assert(r@ =~= dep@.take(k as int));
        push_str(&mut r, "::");
        crate::text::push_chars(&mut r, second.as_slice());
        Some(r)
    }

    /// The (imported module, importing module) pairs of the `use crate::`
    /// lines of `files`, in order.
    pub fn dependency_edges(&self, files: &Vec<SourceFile>) -> (r: Vec<(String, String)>)
        ensures
            edge_views(r@) == source_edges(files@),
    {
        let mut out: Vec<(String, String)> = Vec::new();
        let n = files.len();
        for i in 0..n
            invariant
                n == files@.len(),
                edge_views(out@) == source_edges(files@.take(i as int)),
        {
            assert(files@.take(i + 1).drop_last() =~= files@.take(i as int));
            let f = &files[i];
            let module = self.get_module_name(f.src_path.as_str());
            let ls = str_lines(f.content.as_str());
            let ghost lv = views(ls@);
            let ghost base = edge_views(out@);
            let m = ls.len();
            for j in 0..m
                invariant
                    m == ls@.len(),
                    lv == views(ls@),
                    lv == lines(f.content@),
                    edge_views(out@) == base + file_edges(module@, lv.take(j as int)),
            {
                assert(lv.take(j + 1).drop_last() =~= lv.take(j as int));
                assert(lv[j as int] == ls@[j as int]@);
                let ghost before = out@;
                match Self::use_dependency(ls[j].as_slice()) {
                    Some(d) => {
                        let dm = module.clone();
                        out.push((d, dm));
                        assert(edge_views(out@) =~= edge_views(before).push((d@, module@)));
                        assert(edge_views(out@) =~= base + file_edges(module@, lv.take(j + 1)));
                    },
                    None => {
                        assert(base + file_edges(module@, lv.take(j + 1)) =~= base + file_edges(module@, lv.take(j as int)));
                    },
                }
            }
            assert(lv.take(m as int) =~= lv);
        }
        assert(files@.take(n as int) =~= files@);
        out
    }
}

/// A module impact as the contracts see it: name, layer, reason, level.
pub open spec fn impact_view(m: ImpactedModule) -> (Seq<char>, Seq<char>, Seq<char>, ImpactLevel) {
    (m.name@, m.layer@, m.impact_reason@, m.impact_level)
}

pub open spec fn impact_views(ms: Seq<ImpactedModule>) -> Seq<(Seq<char>, Seq<char>, Seq<char>, ImpactLevel)> {
    ms.map_values(|m: ImpactedModule| impact_view(m))
}

/// No impact lists dependent files.
pub open spec fn no_dependent_files(ms: Seq<ImpactedModule>) -> bool {
    forall|i: int| 0 <= i < ms.len() ==> (#[trigger] ms[i]).dependent_files@.len() == 0
}

/// Position of the first impact on the module `n`, or `es.len()`.
pub open spec fn find_name(es: Seq<(Seq<char>, Seq<char>, Seq<char>, ImpactLevel)>, n: Seq<char>) -> int
    decreases es.len(),
{
    if es.len() == 0 {
        0
    } else if es[0].0 == n {
        0
    } else {
        1 + find_name(es.drop_first(), n)
    }
}

/// `es` with the impact `e` recorded: it replaces an impact on the same
/// module, or is added after the others.
pub open spec fn put(es: Seq<(Seq<char>, Seq<char>, Seq<char>, ImpactLevel)>, e: (Seq<char>, Seq<char>, Seq<char>, ImpactLevel))
    -> Seq<(Seq<char>, Seq<char>, Seq<char>, ImpactLevel)> {
    let k = find_name(es, e.0);
    if k < es.len() {
        es.update(k, e)
    } else {
        es.push(e)
    }
}

/// The impact on a module that was changed itself.
pub open spec fn direct_impact(m: Seq<char>) -> (Seq<char>, Seq<char>, Seq<char>, ImpactLevel) {
    (m, layer_of_module(m), "直接修改"@, ImpactLevel::High)
}

/// The impact on a module `d` that imports the changed module `m`: high
/// where `m` is a domain module.
pub open spec fn dependent_impact(d: Seq<char>, m: Seq<char>) -> (Seq<char>, Seq<char>, Seq<char>, ImpactLevel) {
    (d, layer_of_module(d), "依赖被修改的模块 "@ + m,
        if layer_of_module(m) == "domain"@ { ImpactLevel::High } else { ImpactLevel::Medium })
}

/// `es` with the importers `deps` of `m` added, each unless already present.
pub open spec fn add_dependents(es: Seq<(Seq<char>, Seq<char>, Seq<char>, ImpactLevel)>, m: Seq<char>, deps: Seq<Seq<char>>)
    -> Seq<(Seq<char>, Seq<char>, Seq<char>, ImpactLevel)>
    decreases deps.len(),
{
    if deps.len() == 0 {
        es
    } else {
        let next = if find_name(es, deps[0]) < es.len() { es } else { es.push(dependent_impact(deps[0], m)) };
        add_dependents(next, m, deps.drop_first())
    }
}

/// The modules importing `m`, in the order of the edges.
pub open spec fn dependents_of(edges: Seq<(Seq<char>, Seq<char>)>, m: Seq<char>) -> Seq<Seq<char>>
    decreases edges.len(),
{
    if edges.len() == 0 {
        Seq::empty()
    } else {
        (if edges[0].0 == m { seq![edges[0].1] } else { Seq::empty() }) + dependents_of(edges.drop_first(), m)
    }
}

/// `es` with each changed module, then its importers, recorded in turn.
pub open spec fn impacts_from(es: Seq<(Seq<char>, Seq<char>, Seq<char>, ImpactLevel)>, changed: Seq<Seq<char>>,
    edges: Seq<(Seq<char>, Seq<char>)>) -> Seq<(Seq<char>, Seq<char>, Seq<char>, ImpactLevel)>
    decreases changed.len(),
{
    if changed.len() == 0 {
        es
    } else {
        let m = changed[0];
        impacts_from(add_dependents(put(es, direct_impact(m)), m, dependents_of(edges, m)), changed.drop_first(), edges)
    }
}

/// The impacts of level `l`, in order.
pub open spec fn with_level(es: Seq<(Seq<char>, Seq<char>, Seq<char>, ImpactLevel)>, l: ImpactLevel)
    -> Seq<(Seq<char>, Seq<char>, Seq<char>, ImpactLevel)>
    decreases es.len(),
{
    if es.len() == 0 {
        Seq::empty()
    } else {
        with_level(es.drop_last(), l) + if es.last().3 == l { seq![es.last()] } else { Seq::empty() }
    }
}

/// The impacts strongest first, in order within each level.
pub open spec fn by_level(es: Seq<(Seq<char>, Seq<char>, Seq<char>, ImpactLevel)>) -> Seq<(Seq<char>, Seq<char>, Seq<char>, ImpactLevel)> {
    with_level(es, ImpactLevel::Critical) + with_level(es, ImpactLevel::High) + with_level(es, ImpactLevel::Medium)
        + with_level(es, ImpactLevel::Low)
}

/// The modules affected when `changed` are modified, given the import
/// edges: strongest impact first.
pub open spec fn impacted_modules(changed: Seq<Seq<char>>, edges: Seq<(Seq<char>, Seq<char>)>)
    -> Seq<(Seq<char>, Seq<char>, Seq<char>, ImpactLevel)> {
    by_level(impacts_from(Seq::empty(), changed, edges))
}

pub open spec fn string_views(ss: Seq<String>) -> Seq<Seq<char>> {
    ss.map_values(|s: String| s@)
}

proof fn lemma_find_name_at(es: Seq<(Seq<char>, Seq<char>, Seq<char>, ImpactLevel)>, n: Seq<char>, m: int)
    requires
        0 <= m <= es.len(),
        forall|j: int| 0 <= j < m ==> (#[trigger] es[j]).0 != n,
        m == es.len() || es[m].0 == n,
    ensures
        find_name(es, n) == m,
    decreases m,
{
    if m > 0 {
        assert forall|j: int| 0 <= j < m - 1 implies (#[trigger] es.drop_first()[j]).0 != n by {
            assert(es.drop_first()[j] == es[j + 1]);
        }
        if m < es.len() {
            assert(es.drop_first()[m - 1] == es[m]);
        }
        lemma_find_name_at(es.drop_first(), n, m - 1);
    }
}

fn find_module(es: &Vec<ImpactedModule>, n: &str) -> (r: usize)
    ensures
        r as int == find_name(impact_views(es@), n@),
        r <= es@.len(),
{
    let ghost v = impact_views(es@);
    let mut i: usize = 0;
    while i < es.len()
        invariant
            i <= es@.len(),
            v == impact_views(es@),
            forall|j: int| 0 <= j < i ==> (#[trigger] v[j]).0 != n@,
        decreases es@.len() - i,
    {
        assert(v[i as int] == impact_view(es@[i as int]));
        if crate::text::str_eq(es[i].name.as_str(), n) {
            proof { lemma_find_name_at(v, n@, i as int); }
            return i;
        }
        i = i + 1;
    }
    proof { lemma_find_name_at(v, n@, i as int); }
    i
}

impl ImpactAnalysisService {
    fn put_direct(&self, es: &mut Vec<ImpactedModule>, m: &String)
        requires
            no_dependent_files(old(es)@),
        ensures
            impact_views(final(es)@) == put(impact_views(old(es)@), direct_impact(m@)),
            no_dependent_files(final(es)@),
    {
        let k = find_module(es, m.as_str());
        let entry = ImpactedModule {
            name: m.clone(),
            layer: self.get_module_layer(m.as_str()),
            impact_reason: owned("直接修改"),
            impact_level: ImpactLevel::High,
            dependent_files: Vec::new(),
        };
        let ghost before = es@;
        assert(impact_view(entry) == direct_impact(m@));
        if k < es.len() {
            es.set(k, entry);
            assert(impact_views(es@) =~= impact_views(before).update(k as int, direct_impact(m@)));
        } else {
            es.push(entry);
            assert(impact_views(es@) =~= impact_views(before).push(direct_impact(m@)));
        }
    }

    fn add_dependents_of(&self, es: &mut Vec<ImpactedModule>, m: &String, edges: &Vec<(String, String)>)
        requires
            no_dependent_files(old(es)@),
        ensures
            impact_views(final(es)@) == add_dependents(impact_views(old(es)@), m@, dependents_of(edge_views(edges@), m@)),
            no_dependent_files(final(es)@),
    {
        let ghost ev = edge_views(edges@);
        let ghost goal = add_dependents(impact_views(es@), m@, dependents_of(ev, m@));
        let lm = self.get_module_layer(m.as_str());
        let is_domain = crate::text::str_eq(lm.as_str(), "domain");
        assert(ev.skip(0) =~= ev);
        let n = edges.len();
        for j in 0..n
            invariant
                n == edges@.len(),
                ev == edge_views(edges@),
                lm@ == layer_of_module(m@),
                is_domain == (lm@ == "domain"@),
                goal == add_dependents(impact_views(es@), m@, dependents_of(ev.skip(j as int), m@)),
                no_dependent_files(es@),
        {
            let ghost t = ev.skip(j as int);
            assert(t[0] == ev[j as int]);
            assert(t.drop_first() =~= ev.skip(j + 1));
            assert(ev[j as int] == (edges@[j as int].0@, edges@[j as int].1@));
            let ghost rest = dependents_of(ev.skip(j + 1), m@);
            if crate::text::str_eq(edges[j].0.as_str(), m.as_str()) {
                let d = &edges[j].1;
                let ghost x = impact_views(es@);
                assert((seq![d@] + rest)[0] == d@);
                assert((seq![d@] + rest).drop_first() =~= rest);
                let k = find_module(es, d.as_str());
                if k >= es.len() {
                    let mut reason = owned("依赖被修改的模块 ");
                    push_str(&mut reason, m.as_str());
                    let entry = ImpactedModule {
                        name: d.clone(),
                        layer: self.get_module_layer(d.as_str()),
                        impact_reason: reason,
                        impact_level: if is_domain { ImpactLevel::High } else { ImpactLevel::Medium },
                        dependent_files: Vec::new(),
                    };
                    assert(impact_view(entry) == dependent_impact(d@, m@));
                    es.push(entry);
                    assert(impact_views(es@) =~= x.push(dependent_impact(d@, m@)));
                }
            } else {
                assert(Seq::<Seq<char>>::empty() + rest =~= rest);
            }
        }
        assert(ev.skip(n as int) =~= Seq::<(Seq<char>, Seq<char>)>::empty());
    }

    fn order_by_level(es: Vec<ImpactedModule>) -> (r: Vec<ImpactedModule>)
        requires
            no_dependent_files(es@),
        ensures
            impact_views(r@) == by_level(impact_views(es@)),
            no_dependent_files(r@),
    {
        let ghost v = impact_views(es@);
        let ghost input = es@;
        let mut rest = es;
        let mut c: Vec<ImpactedModule> = Vec::new();
        let mut h: Vec<ImpactedModule> = Vec::new();
        let mut md: Vec<ImpactedModule> = Vec::new();
        let mut lo: Vec<ImpactedModule> = Vec::new();
        let n = rest.len();
        let mut i: usize = 0;
        while i < n
            invariant
                n == input.len(),
                i <= n,
                v == impact_views(input),
                rest@ == input.skip(i as int),
                no_dependent_files(input),
                no_dependent_files(c@),
                no_dependent_files(h@),
                no_dependent_files(md@),
                no_dependent_files(lo@),
                impact_views(c@) == with_level(v.take(i as int), ImpactLevel::Critical),
                impact_views(h@) == with_level(v.take(i as int), ImpactLevel::High),
                impact_views(md@) == with_level(v.take(i as int), ImpactLevel::Medium),
                impact_views(lo@) == with_level(v.take(i as int), ImpactLevel::Low),
            decreases n - i,
        {
            let e = rest.remove(0);
            assert(e == input[i as int]);
            assert(input.skip(i + 1) =~= input.skip(i as int).remove(0));
            assert(v.take(i + 1).drop_last() =~= v.take(i as int));
            assert(v.take(i + 1).last() == impact_view(e));
            let ghost (c0, h0, m0, l0) = (c@, h@, md@, lo@);
            match e.impact_level {
                ImpactLevel::Critical => {
                    c.push(e);
                    assert(impact_views(c@) =~= impact_views(c0).push(impact_view(e)));
                },
                ImpactLevel::High => {
                    h.push(e);
                    assert(impact_views(h@) =~= impact_views(h0).push(impact_view(e)));
                },
                ImpactLevel::Medium => {
                    md.push(e);
                    assert(impact_views(md@) =~= impact_views(m0).push(impact_view(e)));
                },
                ImpactLevel::Low => {
                    lo.push(e);
                    assert(impact_views(lo@) =~= impact_views(l0).push(impact_view(e)));
                },
            }
            assert(impact_views(c@) =~= with_level(v.take(i + 1), ImpactLevel::Critical));
            assert(impact_views(h@) =~= with_level(v.take(i + 1), ImpactLevel::High));
            assert(impact_views(md@) =~= with_level(v.take(i + 1), ImpactLevel::Medium));
            assert(impact_views(lo@) =~= with_level(v.take(i + 1), ImpactLevel::Low));
            i = i + 1;
        }
        assert(v.take(n as int) =~= v);
        let ghost (c0, h0, m0, l0) = (c@, h@, md@, lo@);
        c.append(&mut h);
        c.append(&mut md);
        c.append(&mut lo);
        assert(c@ =~= c0 + h0 + m0 + l0);
        assert(impact_views(c@) =~= impact_views(c0) + impact_views(h0) + impact_views(m0) + impact_views(l0));
        c
    }

    /// The modules affected when `changed_modules` are modified, given the
    /// (imported, importing) module pairs: each changed module at high
    /// level, then each importer not yet listed; strongest impact first.
    pub fn analyze_impact(&self, changed_modules: &Vec<String>, edges: &Vec<(String, String)>) -> (r: Vec<ImpactedModule>)
        ensures
            impact_views(r@) == impacted_modules(string_views(changed_modules@), edge_views(edges@)),
            no_dependent_files(r@),
    {
        let ghost cv = string_views(changed_modules@);
        let ghost ev = edge_views(edges@);
        let mut es: Vec<ImpactedModule> = Vec::new();
        assert(impact_views(es@) =~= Seq::<(Seq<char>, Seq<char>, Seq<char>, ImpactLevel)>::empty());
        assert(cv.skip(0) =~= cv);
        let n = changed_modules.len();
        for i in 0..n
            invariant
                n == changed_modules@.len(),
                cv == string_views(changed_modules@),
                ev == edge_views(edges@),
                impacts_from(Seq::empty(), cv, ev) == impacts_from(impact_views(es@), cv.skip(i as int), ev),
                no_dependent_files(es@),
        {
            let ghost t = cv.skip(i as int);
            assert(t[0] == changed_modules@[i as int]@);
            assert(t.drop_first() =~= cv.skip(i + 1));
            self.put_direct(&mut es, &changed_modules[i]);
            self.add_dependents_of(&mut es, &changed_modules[i], edges);
        }
        assert(cv.skip(n as int) =~= Seq::<Seq<char>>::empty());
        Self::order_by_level(es)
    }
}

/// A file that holds tests, judged by its name or its test attributes.
pub open spec fn has_test_markers(f: SourceFile) -> bool {
    contains(f.file_name@, "test"@) || f.file_name@ == "tests.rs"@ || contains(f.content@, "#[test]"@)
        || contains(f.content@, "#[cfg(test)]"@)
}

/// `module` is one of the impacted modules or lies inside one.
pub open spec fn covered_by(ms: Seq<ImpactedModule>, module: Seq<char>) -> bool {
    exists|i: int| 0 <= i < ms.len() && (module == (#[trigger] ms[i]).name@ || starts_with(module, ms[i].name@ + "::"@))
}

/// The paths of the test-holding files whose module is impacted, in order.
pub open spec fn test_candidates(fs: Seq<SourceFile>, ms: Seq<ImpactedModule>) -> Seq<Seq<char>>
    decreases fs.len(),
{
    if fs.len() == 0 {
        Seq::empty()
    } else {
        test_candidates(fs.drop_last(), ms) + if has_test_markers(fs.last()) && covered_by(ms, module_name_of(fs.last().src_path@)) {
            seq![fs.last().path@]
        } else {
            Seq::empty()
        }
    }
}

/// Each text comes strictly before the next, so none occurs twice.
pub open spec fn strictly_sorted(ss: Seq<Seq<char>>) -> bool {
    forall|i: int, j: int| 0 <= i < j < ss.len() ==> lex_lt(#[trigger] ss[i], #[trigger] ss[j])
}

/// The commands suggested for one impacted module.
pub open spec fn suggestion_for(m: ImpactedModule) -> Seq<Seq<char>> {
    match m.impact_level {
        ImpactLevel::Critical | ImpactLevel::High => seq!["cargo test -p "@ + m.name@ + " -- --nocapture"@],
        ImpactLevel::Medium => seq!["cargo test "@ + m.name@ + "::"@],
        ImpactLevel::Low => Seq::empty(),
    }
}

/// The commands suggested for the impacted modules, in order.
pub open spec fn module_suggestions(ms: Seq<ImpactedModule>) -> Seq<Seq<char>>
    decreases ms.len(),
{
    if ms.len() == 0 {
        Seq::empty()
    } else {
        module_suggestions(ms.drop_last()) + suggestion_for(ms.last())
    }
}

/// Lines added and deleted over all changed files.
pub open spec fn lines_total(fs: Seq<ChangedFile>) -> int
    decreases fs.len(),
{
    if fs.len() == 0 {
        0
    } else {
        lines_total(fs.drop_last()) + fs.last().lines_added + fs.last().lines_deleted
    }
}

/// Number of impacts at high level or above.
pub open spec fn high_count(ms: Seq<ImpactedModule>) -> int
    decreases ms.len(),
{
    if ms.len() == 0 {
        0
    } else {
        high_count(ms.drop_last()) + if level_rank(ms.last().impact_level) >= 2 { 1int } else { 0int }
    }
}

/// Some changed file lies in the domain layer.
pub open spec fn touches_domain(fs: Seq<ChangedFile>) -> bool {
    exists|i: int| 0 <= i < fs.len() && (#[trigger] fs[i]).layer@ == "domain"@
}

/// The risk score: points for the size of the change, the number of files,
/// crossing layers, touching the domain and the number of strong impacts.
pub open spec fn risk_score(total_lines: int, files: int, cross_layer: bool, domain: bool, high: int) -> int {
    (if total_lines > 500 { 3int } else if total_lines > 200 { 2int } else if total_lines > 50 { 1int } else { 0int })
        + (if files > 10 { 2int } else if files > 5 { 1int } else { 0int })
        + (if cross_layer { 2int } else { 0int })
        + (if domain { 2int } else { 0int })
        + (if high > 5 { 2int } else if high > 2 { 1int } else { 0int })
}

/// The risk a score stands for.
pub open spec fn risk_of_score(score: int) -> ImpactRisk {
    if score >= 6 {
        ImpactRisk::High
    } else if score >= 3 {
        ImpactRisk::Medium
    } else {
        ImpactRisk::Low
    }
}

/// The risk of a change.
pub open spec fn change_risk(fs: Seq<ChangedFile>, ms: Seq<ImpactedModule>, cross_layer: bool) -> ImpactRisk {
    risk_of_score(risk_score(lines_total(fs), fs.len() as int, cross_layer, touches_domain(fs), high_count(ms)))
}

proof fn lemma_lines_total_prefix(fs: Seq<ChangedFile>, i: int)
    requires
        0 <= i <= fs.len(),
    ensures
        0 <= lines_total(fs.take(i)) <= lines_total(fs),
    decreases fs.len(),
{
    if fs.len() > 0 {
        if i == fs.len() {
            assert(fs.take(i) =~= fs);
            lemma_lines_total_prefix(fs.drop_last(), i - 1);
        } else {
            assert(fs.take(i) =~= fs.drop_last().take(i));
            lemma_lines_total_prefix(fs.drop_last(), i);
        }
    } else {
        assert(fs.take(i) =~= fs);
    }
}

proof fn lemma_high_count_bounds(ms: Seq<ImpactedModule>)
    ensures
        0 <= high_count(ms) <= ms.len(),
    decreases ms.len(),
{
    if ms.len() > 0 {
        lemma_high_count_bounds(ms.drop_last());
    }
}

/// Adds `x` to the strictly sorted `out` unless it is there already.
fn insert_sorted(out: &mut Vec<String>, x: String)
    requires
        strictly_sorted(string_views(old(out)@)),
    ensures
        strictly_sorted(string_views(final(out)@)),
        forall|y: Seq<char>| string_views(final(out)@).contains(y) <==> (string_views(old(out)@).contains(y) || y == x@),
{
    let ghost v = string_views(out@);
    let mut p: usize = 0;
    while p < out.len()
        invariant
            p <= out@.len(),
            v == string_views(out@),
            forall|j: int| 0 <= j < p ==> lex_lt(#[trigger] v[j], x@),
        ensures
            p <= out@.len(),
            forall|j: int| 0 <= j < p ==> lex_lt(#[trigger] v[j], x@),
            p < out@.len() ==> !lex_lt(v[p as int], x@),
        decreases out@.len() - p,
    {
        assert(v[p as int] == out@[p as int]@);
        if !lex_less(out[p].as_str(), x.as_str()) {
            break;
        }
        p = p + 1;
    }
    if p < out.len() {
        assert(v[p as int] == out@[p as int]@);
        if str_eq(out[p].as_str(), x.as_str()) {
            assert forall|y: Seq<char>| v.contains(y) <==> (v.contains(y) || y == x@) by {
                if y == x@ {
                    assert(v[p as int] == y);
                }
            }
            return;
        }
        proof {
            lemma_lex_lt_total(v[p as int], x@);
        }
    }
    let ghost xv = x@;
    out.insert(p, x);
    proof {
        let w = string_views(out@);
        assert(w =~= v.insert(p as int, xv));
        assert forall|i: int, j: int| 0 <= i < j < w.len() implies lex_lt(#[trigger] w[i], #[trigger] w[j]) by {
            if j < p {
                assert(w[i] == v[i] && w[j] == v[j]);
            } else if j == p {
                assert(w[j] == xv && w[i] == v[i]);
            } else if i == p {
                assert(w[i] == xv && w[j] == v[j - 1]);
                if j - 1 > p {
                    lemma_lex_lt_trans(xv, v[p as int], v[j - 1]);
                }
            } else if i < p {
                assert(w[i] == v[i] && w[j] == v[j - 1]);
                if i < j - 1 {
                } else {
                }
            } else {
                assert(w[i] == v[i - 1] && w[j] == v[j - 1]);
            }
        }
        assert forall|y: Seq<char>| w.contains(y) <==> (v.contains(y) || y == xv) by {
            if w.contains(y) {
                let k = choose|k: int| 0 <= k < w.len() && w[k] == y;
                if k < p {
                    assert(v[k] == y);
                } else if k > p {
                    assert(v[k - 1] == y);
                }
            }
            if v.contains(y) {
                let k = choose|k: int| 0 <= k < v.len() && v[k] == y;
                if k < p {
                    assert(w[k] == y);
                } else {
                    assert(w[k + 1] == y);
                }
            }
            if y == xv {
                assert(w[p as int] == y);
            }
        }
    }
}

/// `module` is one of the impacted modules or lies inside one.
fn module_covered(ms: &Vec<ImpactedModule>, module: &str) -> (r: bool)
    ensures
        r == covered_by(ms@, module@),
{
    for i in 0..ms.len()
        invariant
            forall|k: int| 0 <= k < i ==> !(module@ == (#[trigger] ms@[k]).name@ || starts_with(module@, ms@[k].name@ + "::"@)),
    {
        let mut prefix = ms[i].name.clone();
        push_str(&mut prefix, "::");
        if str_eq(module, ms[i].name.as_str()) || str_starts_with(module, prefix.as_str()) {
            return true;
        }
    }
    false
}

impl ImpactAnalysisService {
    /// Whether a source file holds tests.
    pub fn holds_tests(f: &SourceFile) -> (r: bool)
        ensures
            r == has_test_markers(*f),
    {
        str_contains(f.file_name.as_str(), "test") || str_eq(f.file_name.as_str(), "tests.rs")
            || str_contains(f.content.as_str(), "#[test]") || str_contains(f.content.as_str(), "#[cfg(test)]")
    }

    /// The test-holding files of impacted modules, sorted and without repeats.
    pub fn find_impacted_tests(&self, files: &Vec<SourceFile>, impacted: &Vec<ImpactedModule>) -> (r: Vec<String>)
        ensures
            strictly_sorted(string_views(r@)),
            forall|y: Seq<char>| string_views(r@).contains(y) <==> test_candidates(files@, impacted@).contains(y),
    {
        let mut out: Vec<String> = Vec::new();
        let n = files.len();
        for i in 0..n
            invariant
                n == files@.len(),
                strictly_sorted(string_views(out@)),
                forall|y: Seq<char>| string_views(out@).contains(y) <==> test_candidates(files@.take(i as int), impacted@).contains(y),
        {
            assert(files@.take(i + 1).drop_last() =~= files@.take(i as int));
            let ghost prev = test_candidates(files@.take(i as int), impacted@);
            let f = &files[i];
            let module = self.get_module_name(f.src_path.as_str());
            if Self::holds_tests(f) && module_covered(impacted, module.as_str()) {
                let ghost before = string_views(out@);
                insert_sorted(&mut out, f.path.clone());
                assert forall|y: Seq<char>| string_views(out@).contains(y)
                    <==> test_candidates(files@.take(i + 1), impacted@).contains(y) by {
                    let t = test_candidates(files@.take(i + 1), impacted@);
                    assert(t =~= prev.push(f.path@));
                    if y == f.path@ {
                        assert(t[prev.len() as int] == y);
                    }
                    if prev.contains(y) {
                        let k = choose|k: int| 0 <= k < prev.len() && prev[k] == y;
                        assert(t[k] == y);
                    }
                    if t.contains(y) && y != f.path@ {
                        let k = choose|k: int| 0 <= k < t.len() && t[k] == y;
                        assert(prev[k] == y);
                    }
                }
            } else {
                assert(test_candidates(files@.take(i + 1), impacted@) =~= prev);
            }
        }
        assert(files@.take(n as int) =~= files@);
        out
    }

    /// The test commands to run: per strongly impacted module, then the library tests.
    pub fn suggest_tests(&self, impacted: &Vec<ImpactedModule>) -> (r: Vec<String>)
        ensures
            string_views(r@) == module_suggestions(impacted@).push("cargo test --lib"@),
    {
        let mut out: Vec<String> = Vec::new();
        let n = impacted.len();
        for i in 0..n
            invariant
                n == impacted@.len(),
                string_views(out@) == module_suggestions(impacted@.take(i as int)),
        {
            assert(impacted@.take(i + 1).drop_last() =~= impacted@.take(i as int));
            assert(impacted@.take(i + 1).last() == impacted@[i as int]);
            let m = &impacted[i];
            let ghost before = string_views(out@);
            match m.impact_level {
                ImpactLevel::Critical | ImpactLevel::High => {
                    let mut c = owned("cargo test -p ");
                    push_str(&mut c, m.name.as_str());
                    push_str(&mut c, " -- --nocapture");
                    out.push(c);
                    assert(string_views(out@) =~= before.push(c@));
                },
                ImpactLevel::Medium => {
                    let mut c = owned("cargo test ");
                    push_str(&mut c, m.name.as_str());
                    push_str(&mut c, "::");
                    out.push(c);
                    assert(string_views(out@) =~= before.push(c@));
                },
                ImpactLevel::Low => {
                    assert(before + Seq::<Seq<char>>::empty() =~= before);
                },
            }
            assert(string_views(out@) =~= module_suggestions(impacted@.take(i + 1)));
        }
        assert(impacted@.take(n as int) =~= impacted@);
        let ghost before = string_views(out@);
        let last = owned("cargo test --lib");
        out.push(last);
        assert(string_views(out@) =~= before.push(last@));
        out
    }

    /// The risk of a change.
    pub fn assess_risk(&self, changed_files: &Vec<ChangedFile>, impacted: &Vec<ImpactedModule>, cross_layer: bool) -> (r: ImpactRisk)
        requires
            lines_total(changed_files@) <= usize::MAX,
        ensures
            r == change_risk(changed_files@, impacted@, cross_layer),
    {
        let n = changed_files.len();
        let mut total: usize = 0;
        let mut domain = false;
        for i in 0..n
            invariant
                n == changed_files@.len(),
                lines_total(changed_files@) <= usize::MAX,
                total as int == lines_total(changed_files@.take(i as int)),
                domain == exists|k: int| 0 <= k < i && (#[trigger] changed_files@[k]).layer@ == "domain"@,
        {
            let ghost fs = changed_files@;
            assert(fs.take(i + 1).drop_last() =~= fs.take(i as int));
            proof {
                lemma_lines_total_prefix(fs, i + 1);
            }
            let f = &changed_files[i];
            total = total + f.lines_added + f.lines_deleted;
            if str_eq(f.layer.as_str(), "domain") {
                domain = true;
            }
        }
        assert(changed_files@.take(n as int) =~= changed_files@);
        let m = impacted.len();
        let mut high: usize = 0;
        for j in 0..m
            invariant
                m == impacted@.len(),
                high as int == high_count(impacted@.take(j as int)),
                high <= j,
        {
            assert(impacted@.take(j + 1).drop_last() =~= impacted@.take(j as int));
            match impacted[j].impact_level {
                ImpactLevel::High | ImpactLevel::Critical => {
                    high = high + 1;
                },
                _ => {},
            }
        }
        assert(impacted@.take(m as int) =~= impacted@);
        let mut score: u32 = 0;
        if total > 500 {
            score = score + 3;
        } else if total > 200 {
            score = score + 2;
        } else if total > 50 {
            score = score + 1;
        }
        if n > 10 {
            score = score + 2;
        } else if n > 5 {
            score = score + 1;
        }
        if cross_layer {
            score = score + 2;
        }
        if domain {
            score = score + 2;
        }
        if high > 5 {
            score = score + 2;
        } else if high > 2 {
            score = score + 1;
        }
        if score >= 6 {
            ImpactRisk::High
        } else if score >= 3 {
            ImpactRisk::Medium
        } else {
            ImpactRisk::Low
        }
    }
}

/// The modules of the changed files.
pub open spec fn file_modules(fs: Seq<ChangedFile>) -> Seq<Seq<char>> {
    fs.map_values(|f: ChangedFile| f.module@)
}

/// The layers of the changed files.
pub open spec fn file_layers(fs: Seq<ChangedFile>) -> Seq<Seq<char>> {
    fs.map_values(|f: ChangedFile| f.layer@)
}

/// The texts of `s` without repeats, each where it first occurs.
pub open spec fn distinct_in_order(s: Seq<Seq<char>>) -> Seq<Seq<char>>
    decreases s.len(),
{
    if s.len() == 0 {
        Seq::empty()
    } else {
        let d = distinct_in_order(s.drop_last());
        if d.contains(s.last()) { d } else { d.push(s.last()) }
    }
}

/// Adds `x` after the others unless it is present.
pub fn push_new(out: &mut Vec<String>, x: &String)
    ensures
        string_views(final(out)@) == (if string_views(old(out)@).contains(x@) {
            string_views(old(out)@)
        } else {
            string_views(old(out)@).push(x@)
        }),
{
    let ghost v = string_views(out@);
    for i in 0..out.len()
        invariant
            v == string_views(out@),
            forall|k: int| 0 <= k < i ==> v[k] != x@,
    {
        assert(v[i as int] == out@[i as int]@);
        if str_eq(out[i].as_str(), x.as_str()) {
            return;
        }
    }
    assert(!v.contains(x@));
    out.push(x.clone());
    assert(string_views(out@) =~= v.push(x@));
}

impl ImpactAnalysisService {
    /// The analysis of `changed_files`.  `sources` are the files of the
    /// source directory, `None` where the project has none: then no module
    /// and no test is found impacted.
    pub fn analyze(&self, changed_files: Vec<ChangedFile>, sources: Option<Vec<SourceFile>>) -> (r: ImpactAnalysis)
        requires
            lines_total(changed_files@) <= usize::MAX,
        ensures
            r.changed_files@ == changed_files@,
            impact_views(r.impacted_modules@) == match sources {
                Some(fs) => impacted_modules(distinct_in_order(file_modules(changed_files@)), source_edges(fs@)),
                None => Seq::empty(),
            },
            no_dependent_files(r.impacted_modules@),
            strictly_sorted(string_views(r.impacted_tests@)),
            forall|y: Seq<char>| string_views(r.impacted_tests@).contains(y) <==> match sources {
                Some(fs) => test_candidates(fs@, r.impacted_modules@).contains(y),
                None => false,
            },
            string_views(r.suggested_tests@) == module_suggestions(r.impacted_modules@).push("cargo test --lib"@),
            string_views(r.summary.layers_affected@) == distinct_in_order(file_layers(changed_files@)),
            r.summary.cross_layer_changes == (distinct_in_order(file_layers(changed_files@)).len() > 1),
            r.summary.total_changed_files == changed_files@.len(),
            r.summary.total_impacted_modules == r.impacted_modules@.len(),
            r.summary.total_lines_changed == lines_total(changed_files@),
            r.risk_level == change_risk(changed_files@, r.impacted_modules@, r.summary.cross_layer_changes),
    {
        let ghost fs = changed_files@;
        let mut modules: Vec<String> = Vec::new();
        let mut layers: Vec<String> = Vec::new();
        let mut total: usize = 0;
        let n = changed_files.len();
        for i in 0..n
            invariant
                n == fs.len(),
                fs == changed_files@,
                lines_total(fs) <= usize::MAX,
                total as int == lines_total(fs.take(i as int)),
                string_views(modules@) == distinct_in_order(file_modules(fs.take(i as int))),
                string_views(layers@) == distinct_in_order(file_layers(fs.take(i as int))),
        {
            assert(fs.take(i + 1).drop_last() =~= fs.take(i as int));
            assert(file_modules(fs.take(i + 1)).drop_last() =~= file_modules(fs.take(i as int)));
            assert(file_layers(fs.take(i + 1)).drop_last() =~= file_layers(fs.take(i as int)));
            proof {
                lemma_lines_total_prefix(fs, i + 1);
            }
            let f = &changed_files[i];
            push_new(&mut modules, &f.module);
            push_new(&mut layers, &f.layer);
            total = total + f.lines_added + f.lines_deleted;
        }
        assert(fs.take(n as int) =~= fs);
        let (impacted, tests) = match &sources {
            Some(files) => {
                let edges = self.dependency_edges(files);
                let impacted = self.analyze_impact(&modules, &edges);
                let tests = self.find_impacted_tests(files, &impacted);
                (impacted, tests)
            },
            None => {
                let impacted: Vec<ImpactedModule> = Vec::new();
                let tests: Vec<String> = Vec::new();
                assert(impact_views(impacted@) =~= Seq::<(Seq<char>, Seq<char>, Seq<char>, ImpactLevel)>::empty());
                assert(string_views(tests@) =~= Seq::<Seq<char>>::empty());
                (impacted, tests)
            },
        };
        let suggested = self.suggest_tests(&impacted);
        let cross = layers.len() > 1;
        assert(string_views(layers@).len() == layers@.len());
        let risk = self.assess_risk(&changed_files, &impacted, cross);
        let summary = ImpactSummary {
            total_changed_files: n,
            total_impacted_modules: impacted.len(),
            total_lines_changed: total,
            layers_affected: layers,
            cross_layer_changes: cross,
        };
        ImpactAnalysis {
            changed_files,
            impacted_modules: impacted,
            impacted_tests: tests,
            risk_level: risk,
            summary,
            suggested_tests: suggested,
        }
    }
}

pub open spec fn risk_icon(r: ImpactRisk) -> Seq<char> {
    match r {
        ImpactRisk::High => "🔴"@,
        ImpactRisk::Medium => "🟡"@,
        ImpactRisk::Low => "🟢"@,
    }
}

/// The name of a risk as `{:?}` prints it.
pub open spec fn risk_name(r: ImpactRisk) -> Seq<char> {
    match r {
        ImpactRisk::High => "High"@,
        ImpactRisk::Medium => "Medium"@,
        ImpactRisk::Low => "Low"@,
    }
}

pub open spec fn change_icon(c: ChangeType) -> Seq<char> {
    match c {
        ChangeType::Added => "➕"@,
        ChangeType::Modified => "✏️"@,
        ChangeType::Deleted => "🗑️"@,
        ChangeType::Renamed => "📝"@,
    }
}

pub open spec fn level_label(l: ImpactLevel) -> Seq<char> {
    match l {
        ImpactLevel::Critical => "🔴 严重"@,
        ImpactLevel::High => "🟠 高"@,
        ImpactLevel::Medium => "🟡 中"@,
        ImpactLevel::Low => "🟢 低"@,
    }
}

/// A row of the overview box holding `value` padded to `w` characters.
pub open spec fn box_row(label: Seq<char>, value: Seq<char>, w: nat) -> Seq<char> {
    label + pad_right(value, w) + "│\n"@
}

/// The overview box of a report.
pub open spec fn overview_text(s: ImpactSummary) -> Seq<char> {
    "  ┌─────────────────────────────────────────────────────┐\n"@ + "  │                   变更概览                          │\n"@ + "  ├─────────────────────────────────────────────────────┤\n"@
        + box_row("  │  变更文件数:  "@, decimal(s.total_changed_files as nat), 36)
        + box_row("  │  影响模块数:  "@, decimal(s.total_impacted_modules as nat), 36)
        + box_row("  │  变更代码行数: "@, decimal(s.total_lines_changed as nat), 35)
        + box_row("  │  受影响层级:  "@, join(string_views(s.layers_affected@), ", "@), 36)
        + box_row("  │  跨层变更:    "@, if s.cross_layer_changes { "是 ⚠️"@ } else { "否"@ }, 36)
        + "  └─────────────────────────────────────────────────────┘\n\n"@
}

/// One line of the changed-file list.
pub open spec fn file_line(f: ChangedFile) -> Seq<char> {
    "     "@ + change_icon(f.change_type) + " "@ + pad_right(f.path@, 40) + " (+"@ + decimal(f.lines_added as nat) + "/-"@
        + decimal(f.lines_deleted as nat) + ") ["@ + f.layer@ + "]\n"@
}

pub open spec fn file_lines(fs: Seq<ChangedFile>) -> Seq<char>
    decreases fs.len(),
{
    if fs.len() == 0 { Seq::empty() } else { file_lines(fs.drop_last()) + file_line(fs.last()) }
}

/// One row of the impacted-module table.
pub open spec fn module_row(m: ImpactedModule) -> Seq<char> {
    "  │ "@ + pad_right(m.name@, 27) + " │ "@ + pad_right(m.layer@, 11) + " │ "@ + pad_right(level_label(m.impact_level), 8)
        + " │ "@ + m.impact_reason@ + "\n"@
}

pub open spec fn module_rows(ms: Seq<ImpactedModule>) -> Seq<char>
    decreases ms.len(),
{
    if ms.len() == 0 { Seq::empty() } else { module_rows(ms.drop_last()) + module_row(ms.last()) }
}

/// Lines `prefix + item + "\n"` for each item.
pub open spec fn item_lines(prefix: Seq<char>, xs: Seq<Seq<char>>) -> Seq<char>
    decreases xs.len(),
{
    if xs.len() == 0 { Seq::empty() } else { item_lines(prefix, xs.drop_last()) + prefix + xs.last() + "\n"@ }
}

pub open spec fn files_section(fs: Seq<ChangedFile>) -> Seq<char> {
    if fs.len() == 0 { Seq::empty() } else { "  📝 变更文件列表\n\n"@ + file_lines(fs) + "\n"@ }
}

pub open spec fn modules_section(ms: Seq<ImpactedModule>) -> Seq<char> {
    if ms.len() == 0 { Seq::empty() } else { "  📊 受影响模块\n\n"@ + "  │ 模块                        │ 层级        │ 影响等级 │ 原因\n"@ + "  ├─────────────────────────────┼─────────────┼──────────┼────────\n"@ + module_rows(ms) + "\n"@ }
}

pub open spec fn tests_section(ts: Seq<Seq<char>>) -> Seq<char> {
    if ts.len() == 0 {
        Seq::empty()
    } else {
        "  ✅ 相关测试文件 ("@ + decimal(ts.len()) + ")\n\n"@ + item_lines("     • "@, ts) + "\n"@
    }
}

pub open spec fn suggestions_section(ts: Seq<Seq<char>>) -> Seq<char> {
    if ts.len() == 0 {
        Seq::empty()
    } else {
        "  💡 建议运行的测试\n\n"@ + item_lines("     $ "@, if ts.len() > 5 { ts.take(5) } else { ts }) + "\n"@
    }
}

/// The text report of an analysis.
pub open spec fn impact_report(a: ImpactAnalysis) -> Seq<char> {
    "\n🔍 代码变更影响分析\n\n"@ + "  风险等级: "@ + risk_icon(a.risk_level) + " "@ + risk_name(a.risk_level) + "\n\n"@
        + overview_text(a.summary)
        + files_section(a.changed_files@)
        + modules_section(a.impacted_modules@)
        + tests_section(string_views(a.impacted_tests@))
        + suggestions_section(string_views(a.suggested_tests@))
}

fn risk_icon_of(r: ImpactRisk) -> (s: &'static str)
    ensures
        s@ == risk_icon(r),
{
    match r {
        ImpactRisk::High => "🔴",
        ImpactRisk::Medium => "🟡",
        ImpactRisk::Low => "🟢",
    }
}

fn risk_name_of(r: ImpactRisk) -> (s: &'static str)
    ensures
        s@ == risk_name(r),
{
    match r {
        ImpactRisk::High => "High",
        ImpactRisk::Medium => "Medium",
        ImpactRisk::Low => "Low",
    }
}

fn change_icon_of(c: ChangeType) -> (s: &'static str)
    ensures
        s@ == change_icon(c),
{
    match c {
        ChangeType::Added => "➕",
        ChangeType::Modified => "✏️",
        ChangeType::Deleted => "🗑️",
        ChangeType::Renamed => "📝",
    }
}

fn level_label_of(l: ImpactLevel) -> (s: &'static str)
    ensures
        s@ == level_label(l),
{
    match l {
        ImpactLevel::Critical => "🔴 严重",
        ImpactLevel::High => "🟠 高",
        ImpactLevel::Medium => "🟡 中",
        ImpactLevel::Low => "🟢 低",
    }
}

fn push_box_row(o: &mut String, label: &str, value: &str, w: usize)
    ensures
        final(o)@ == old(o)@ + box_row(label@, value@, w as nat),
{
    let ghost o0 = o@;
    push_str(o, label);
    push_padded(o, value, w);
    push_str(o, "│\n");
    assert(o@ =~= o0 + box_row(label@, value@, w as nat));
}

fn push_box_head(o: &mut String)
    ensures
        final(o)@ == old(o)@ + "  ┌─────────────────────────────────────────────────────┐\n"@ + "  │                   变更概览                          │\n"@ + "  ├─────────────────────────────────────────────────────┤\n"@,
{
    let ghost o0 = o@;
    push_str(o, "  ┌─────────────────────────────────────────────────────┐\n");
    push_str(o, "  │                   变更概览                          │\n");
    push_str(o, "  ├─────────────────────────────────────────────────────┤\n");
    assert(o@ =~= o0 + "  ┌─────────────────────────────────────────────────────┐\n"@ + "  │                   变更概览                          │\n"@ + "  ├─────────────────────────────────────────────────────┤\n"@);
}

fn push_overview(o: &mut String, s: &ImpactSummary)
    ensures
        final(o)@ == old(o)@ + overview_text(*s),
{
    let ghost o0 = o@;
    push_box_head(o);
    let ghost o1 = o@;
    let a = crate::text::usize_to_string(s.total_changed_files);
    push_box_row(o, "  │  变更文件数:  ", a.as_str(), 36);
    let b = crate::text::usize_to_string(s.total_impacted_modules);
    push_box_row(o, "  │  影响模块数:  ", b.as_str(), 36);
    let c = crate::text::usize_to_string(s.total_lines_changed);
    push_box_row(o, "  │  变更代码行数: ", c.as_str(), 35);
    let ghost o2 = o@;
    let mut joined = String::new();
    push_join(&mut joined, &s.layers_affected, ", ");
    assert(joined@ =~= join(string_views(s.layers_affected@), ", "@));
    push_box_row(o, "  │  受影响层级:  ", joined.as_str(), 36);
    push_box_row(o, "  │  跨层变更:    ", if s.cross_layer_changes { "是 ⚠️" } else { "否" }, 36);
    push_str(o, "  └─────────────────────────────────────────────────────┘\n\n");
    assert(o@ =~= o0 + overview_text(*s));
}

fn push_file_line(o: &mut String, f: &ChangedFile)
    ensures
        final(o)@ == old(o)@ + file_line(*f),
{
    let ghost o0 = o@;
    push_str(o, "     ");
    push_str(o, change_icon_of(f.change_type));
    push_str(o, " ");
    push_padded(o, f.path.as_str(), 40);
    push_str(o, " (+");
    push_decimal(o, f.lines_added);
    push_str(o, "/-");
    push_decimal(o, f.lines_deleted);
    push_str(o, ") [");
    push_str(o, f.layer.as_str());
    push_str(o, "]\n");
    assert(o@ =~= o0 + file_line(*f));
}

fn push_module_row(o: &mut String, m: &ImpactedModule)
    ensures
        final(o)@ == old(o)@ + module_row(*m),
{
    let ghost o0 = o@;
    push_str(o, "  │ ");
    push_padded(o, m.name.as_str(), 27);
    push_str(o, " │ ");
    push_padded(o, m.layer.as_str(), 11);
    push_str(o, " │ ");
    push_padded(o, level_label_of(m.impact_level), 8);
    push_str(o, " │ ");
    push_str(o, m.impact_reason.as_str());
    push_str(o, "\n");
    assert(o@ =~= o0 + module_row(*m));
}

fn push_files_section(o: &mut String, fs: &Vec<ChangedFile>)
    ensures
        final(o)@ == old(o)@ + files_section(fs@),
{
    if fs.len() == 0 {
        assert(old(o)@ + files_section(fs@) =~= old(o)@);
        return;
    }
    let ghost o0 = o@;
    push_str(o, "  📝 变更文件列表\n\n");
    let ghost o1 = o@;
    let n = fs.len();
    for i in 0..n
        invariant
            n == fs@.len(),
            o@ == o1 + file_lines(fs@.take(i as int)),
    {
        assert(fs@.take(i + 1).drop_last() =~= fs@.take(i as int));
        push_file_line(o, &fs[i]);
        assert(o@ =~= o1 + file_lines(fs@.take(i + 1)));
    }
    assert(fs@.take(n as int) =~= fs@);
    push_str(o, "\n");
    assert(o@ =~= o0 + files_section(fs@));
}

fn push_modules_section(o: &mut String, ms: &Vec<ImpactedModule>)
    ensures
        final(o)@ == old(o)@ + modules_section(ms@),
{
    if ms.len() == 0 {
        assert(old(o)@ + modules_section(ms@) =~= old(o)@);
        return;
    }
    let ghost o0 = o@;
    push_str(o, "  📊 受影响模块\n\n");
    push_str(o, "  │ 模块                        │ 层级        │ 影响等级 │ 原因\n");
    push_str(o, "  ├─────────────────────────────┼─────────────┼──────────┼────────\n");
    let ghost o1 = o@;
    let n = ms.len();
    for i in 0..n
        invariant
            n == ms@.len(),
            o@ == o1 + module_rows(ms@.take(i as int)),
    {
        assert(ms@.take(i + 1).drop_last() =~= ms@.take(i as int));
        push_module_row(o, &ms[i]);
        assert(o@ =~= o1 + module_rows(ms@.take(i + 1)));
    }
    assert(ms@.take(n as int) =~= ms@);
    push_str(o, "\n");
    assert(o@ =~= o0 + modules_section(ms@));
}

fn push_item_lines(o: &mut String, prefix: &str, xs: &Vec<String>, limit: usize)
    ensures
        final(o)@ == old(o)@ + item_lines(prefix@, string_views(xs@).take(if xs@.len() > limit { limit as int } else { xs@.len() as int })),
{
    let ghost v = string_views(xs@);
    let n = if xs.len() > limit { limit } else { xs.len() };
    let ghost o1 = o@;
    for i in 0..n
        invariant
            n <= xs@.len(),
            v == string_views(xs@),
            o@ == o1 + item_lines(prefix@, v.take(i as int)),
    {
        assert(v.take(i + 1).drop_last() =~= v.take(i as int));
        assert(v.take(i + 1).last() == xs@[i as int]@);
        push_str(o, prefix);
        push_str(o, xs[i].as_str());
        push_str(o, "\n");
        assert(o@ =~= o1 + item_lines(prefix@, v.take(i + 1)));
    }
}

fn push_tests_section(o: &mut String, ts: &Vec<String>)
    ensures
        final(o)@ == old(o)@ + tests_section(string_views(ts@)),
{
    let ghost v = string_views(ts@);
    if ts.len() == 0 {
        assert(old(o)@ + tests_section(v) =~= old(o)@);
        return;
    }
    let ghost o0 = o@;
    push_str(o, "  ✅ 相关测试文件 (");
    push_decimal(o, ts.len());
    push_str(o, ")\n\n");
    push_item_lines(o, "     • ", ts, ts.len());
    assert(v.take(ts.len() as int) =~= v);
    push_str(o, "\n");
    assert(o@ =~= o0 + tests_section(v));
}

fn push_suggestions_section(o: &mut String, ts: &Vec<String>)
    ensures
        final(o)@ == old(o)@ + suggestions_section(string_views(ts@)),
{
    let ghost v = string_views(ts@);
    if ts.len() == 0 {
        assert(old(o)@ + suggestions_section(v) =~= old(o)@);
        return;
    }
    let ghost o0 = o@;
    push_str(o, "  💡 建议运行的测试\n\n");
    push_item_lines(o, "     $ ", ts, 5);
    assert(v.take(v.len() as int) =~= v);
    push_str(o, "\n");
    assert(o@ =~= o0 + suggestions_section(v));
}

impl ImpactAnalysisService {
    /// The text report of an analysis.
    pub fn format_report(&self, analysis: &ImpactAnalysis) -> (r: String)
        ensures
            r@ == impact_report(*analysis),
    {
        let mut o = owned("\n🔍 代码变更影响分析\n\n");
        push_str(&mut o, "  风险等级: ");
        push_str(&mut o, risk_icon_of(analysis.risk_level));
        push_str(&mut o, " ");
        push_str(&mut o, risk_name_of(analysis.risk_level));
        push_str(&mut o, "\n\n");
        push_overview(&mut o, &analysis.summary);
        push_files_section(&mut o, &analysis.changed_files);
        push_modules_section(&mut o, &analysis.impacted_modules);
        push_tests_section(&mut o, &analysis.impacted_tests);
        push_suggestions_section(&mut o, &analysis.suggested_tests);
        o
    }
}

} // verus!
