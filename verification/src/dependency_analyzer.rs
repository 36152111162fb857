//! Module dependency graph of a layered project: modules and their
//! imports, import cycles, imports against the layer direction, and
//! reports of the graph.
use vstd::prelude::*;
use crate::text::{owned, push_str, to_chars, from_chars, from_char_range, chars_eq, replace_char, replace_char_in,
    trim_start_matches, trim_end_matches, trim_start_matches_exec, trim_end_matches_exec, first_index_of,
    find_char_from, lemma_first_index_of_bounds, starts_with, ends_with, begins, finishes, unicode_lowercase,
    to_lowercase, trim, lines, views, trim_chars, find_sub, before_first, lemma_find_sub_found, find_sub_exec,
    before_first_exec, sub_chars, str_lines, str_eq, decimal, push_decimal, join, push_join};
use crate::impact_analysis_service::{distinct_in_order, push_new, string_views};
use crate::errors::{CellError, CellResult};
use crate::entropy_service::{edge, step, is_walk, has_cycle, is_square, finished, count_false, lemma_count_false_mono,
    lemma_walk_rank};

verus! {

/// A module of the project with its size and its imports.
#[derive(Debug, Clone)]
pub struct ModuleInfo {
    pub name: String,
    pub path: String,
    pub layer: String,
    pub file_count: usize,
    pub lines_of_code: usize,
    pub incoming_deps: usize,
    pub outgoing_deps: usize,
    pub depends_on: Vec<String>,
    pub dependents: Vec<String>,
}

/// One import: the importing module, the imported module, and where.
#[derive(Debug, Clone)]
pub struct DependencyEdge {
    pub from: String,
    pub to: String,
    pub file: String,
    pub line: usize,
    pub is_cross_layer: bool,
}

/// An import from an inner layer of an outer one.
#[derive(Debug, Clone)]
pub struct LayerViolation {
    pub from_layer: String,
    pub to_layer: String,
    pub from_module: String,
    pub to_module: String,
    pub file: String,
    pub description: String,
}

/// The dependency graph of a project.
#[derive(Debug, Clone)]
pub struct DependencyGraph {
    pub modules: Vec<ModuleInfo>,
    pub dependencies: Vec<DependencyEdge>,
    pub total_modules: usize,
    pub total_dependencies: usize,
    pub has_circular_deps: bool,
    pub circular_deps: Vec<Vec<String>>,
    pub layer_violations: Vec<LayerViolation>,
}

/// A source file as the analysis reads it.
#[derive(Debug, Clone)]
pub struct ModuleSource {
    /// The path relative to the project root.
    pub rel_path: String,
    /// The path relative to the source directory.
    pub src_path: String,
    /// The text, `None` where it could not be read.
    pub content: Option<String>,
}

/// Builds dependency graphs of the project rooted at `root`.
pub struct DependencyAnalyzer {
    root: String,
}

/// The module of a path relative to the source directory: `root` for
/// top-level files, the directory for files one level down, and
/// `top::second` deeper.
pub open spec fn graph_module_name(rel: Seq<char>) -> Seq<char> {
    let p = replace_char(rel, '\\', '/');
    let k = first_index_of(p, '/');
    if k >= p.len() {
        "root"@
    } else {
        let top = p.take(k);
        let rest = p.skip(k + 1);
        let k2 = first_index_of(rest, '/');
        if k2 >= rest.len() {
            if top == "main.rs"@ || top == "lib.rs"@ { "root"@ } else { top }
        } else {
            let second = rest.take(k2);
            if ends_with(second, ".rs"@) {
                top + "::"@ + trim_end_matches(second, ".rs"@)
            } else {
                top + "::"@ + second
            }
        }
    }
}

/// The layer a module name starts with (case-insensitively, with or
/// without `crate::`), empty when none.
pub open spec fn layer_from_name(m: Seq<char>) -> Seq<char> {
    let lower = unicode_lowercase(m);
    if starts_with(lower, "crate::domain"@) || starts_with(lower, "domain"@) {
        "domain"@
    } else if starts_with(lower, "crate::application"@) || starts_with(lower, "application"@) {
        "application"@
    } else if starts_with(lower, "crate::adapters"@) || starts_with(lower, "adapters"@) {
        "adapters"@
    } else if starts_with(lower, "crate::interfaces"@) || starts_with(lower, "interfaces"@) {
        "interfaces"@
    } else {
        Seq::empty()
    }
}

/// The module a `use crate::...` line imports: its first two path
/// segments, or its only one.
pub open spec fn line_dependency(line: Seq<char>) -> Option<Seq<char>> {
    let t = trim(line);
    if !starts_with(t, "use crate::"@) {
        None
    } else {
        let mp = before_first(trim_start_matches(t, "use crate::"@), ";"@);
        let k = find_sub(mp, "::"@);
        if k < mp.len() {
            Some(mp.take(k as int) + "::"@ + before_first(mp.skip((k + 2) as int), "::"@))
        } else if mp.len() > 0 {
            Some(mp)
        } else {
            None
        }
    }
}

/// The imports of the lines `ls`, each with its line number (from 1).
pub open spec fn line_deps(ls: Seq<Seq<char>>) -> Seq<(Seq<char>, nat)>
    decreases ls.len(),
{
    if ls.len() == 0 {
        Seq::empty()
    } else {
        line_deps(ls.drop_last()) + match line_dependency(ls.last()) {
            Some(d) => seq![(d, ls.len())],
            None => Seq::empty(),
        }
    }
}

/// An import as the contracts see it: from, to, file, line, crosses layers.
pub open spec fn edge_view(e: DependencyEdge) -> (Seq<char>, Seq<char>, Seq<char>, nat, bool) {
    (e.from@, e.to@, e.file@, e.line as nat, e.is_cross_layer)
}

pub open spec fn edge_views(es: Seq<DependencyEdge>) -> Seq<(Seq<char>, Seq<char>, Seq<char>, nat, bool)> {
    es.map_values(|e: DependencyEdge| edge_view(e))
}

/// The imports `ds` of a file of `module`, as edges.
pub open spec fn file_edges(module: Seq<char>, file: Seq<char>, ds: Seq<(Seq<char>, nat)>)
    -> Seq<(Seq<char>, Seq<char>, Seq<char>, nat, bool)>
    decreases ds.len(),
{
    if ds.len() == 0 {
        Seq::empty()
    } else {
        let d = ds.last();
        let dl = layer_from_name(d.0);
        file_edges(module, file, ds.drop_last()) + seq![(module, d.0, file, d.1, layer_from_name(module) != dl && dl.len() > 0)]
    }
}

/// The module a source file belongs to.
pub open spec fn source_module(f: ModuleSource) -> Seq<char> {
    graph_module_name(f.src_path@)
}

/// The number of lines of a source file (none where it was not read).
pub open spec fn source_lines(f: ModuleSource) -> nat {
    match f.content {
        Some(c) => lines(c@).len(),
        None => 0,
    }
}

/// The imports of a source file.
pub open spec fn source_file_edges(f: ModuleSource) -> Seq<(Seq<char>, Seq<char>, Seq<char>, nat, bool)> {
    match f.content {
        Some(c) => file_edges(source_module(f), f.rel_path@, line_deps(lines(c@))),
        None => Seq::empty(),
    }
}

/// The imports of all source files, in order.
pub open spec fn all_edges(fs: Seq<ModuleSource>) -> Seq<(Seq<char>, Seq<char>, Seq<char>, nat, bool)>
    decreases fs.len(),
{
    if fs.len() == 0 {
        Seq::empty()
    } else {
        all_edges(fs.drop_last()) + source_file_edges(fs.last())
    }
}

/// Lines over all source files.
pub open spec fn total_lines(fs: Seq<ModuleSource>) -> int
    decreases fs.len(),
{
    if fs.len() == 0 {
        0
    } else {
        total_lines(fs.drop_last()) + source_lines(fs.last())
    }
}

/// Position of the row of module `n`, or `t.len()`.
pub open spec fn find_row(t: Seq<(Seq<char>, Seq<char>, nat, nat)>, n: Seq<char>) -> int
    decreases t.len(),
{
    if t.len() == 0 {
        0
    } else if t[0].0 == n {
        0
    } else {
        1 + find_row(t.drop_first(), n)
    }
}

/// The module table with one more file of `name` counted.
pub open spec fn table_add(t: Seq<(Seq<char>, Seq<char>, nat, nat)>, name: Seq<char>, loc: nat)
    -> Seq<(Seq<char>, Seq<char>, nat, nat)> {
    let k = find_row(t, name);
    if k < t.len() {
        t.update(k, (t[k].0, t[k].1, t[k].2 + 1, t[k].3 + loc))
    } else {
        t.push((name, layer_from_name(name), 1, loc))
    }
}

/// The modules of the source files with their layer, file count and lines,
/// in the order they first appear.
pub open spec fn module_table(fs: Seq<ModuleSource>) -> Seq<(Seq<char>, Seq<char>, nat, nat)>
    decreases fs.len(),
{
    if fs.len() == 0 {
        Seq::empty()
    } else {
        table_add(module_table(fs.drop_last()), source_module(fs.last()), source_lines(fs.last()))
    }
}

pub open spec fn row_view(m: ModuleInfo) -> (Seq<char>, Seq<char>, nat, nat) {
    (m.name@, m.layer@, m.file_count as nat, m.lines_of_code as nat)
}

pub open spec fn row_views(ms: Seq<ModuleInfo>) -> Seq<(Seq<char>, Seq<char>, nat, nat)> {
    ms.map_values(|m: ModuleInfo| row_view(m))
}

/// The modules imported by `n`, in the order of the edges.
pub open spec fn targets_of(es: Seq<(Seq<char>, Seq<char>, Seq<char>, nat, bool)>, n: Seq<char>) -> Seq<Seq<char>>
    decreases es.len(),
{
    if es.len() == 0 {
        Seq::empty()
    } else {
        targets_of(es.drop_last(), n) + if es.last().0 == n { seq![es.last().1] } else { Seq::empty() }
    }
}

/// The modules importing `n`, in the order of the edges.
pub open spec fn sources_of(es: Seq<(Seq<char>, Seq<char>, Seq<char>, nat, bool)>, n: Seq<char>) -> Seq<Seq<char>>
    decreases es.len(),
{
    if es.len() == 0 {
        Seq::empty()
    } else {
        sources_of(es.drop_last(), n) + if es.last().1 == n { seq![es.last().0] } else { Seq::empty() }
    }
}

/// A module's entry is complete: its path is its name, and its imports in
/// both directions are those of the edges, without repeats.
pub open spec fn module_linked(m: ModuleInfo, es: Seq<(Seq<char>, Seq<char>, Seq<char>, nat, bool)>) -> bool {
    &&& m.path@ == m.name@
    &&& string_views(m.depends_on@) == distinct_in_order(targets_of(es, m.name@))
    &&& string_views(m.dependents@) == distinct_in_order(sources_of(es, m.name@))
    &&& m.outgoing_deps == m.depends_on@.len()
    &&& m.incoming_deps == m.dependents@.len()
}

proof fn lemma_find_row_at(t: Seq<(Seq<char>, Seq<char>, nat, nat)>, n: Seq<char>, m: int)
    requires
        0 <= m <= t.len(),
        forall|j: int| 0 <= j < m ==> (#[trigger] t[j]).0 != n,
        m == t.len() || t[m].0 == n,
    ensures
        find_row(t, n) == m,
    decreases m,
{
    if m > 0 {
        assert forall|j: int| 0 <= j < m - 1 implies (#[trigger] t.drop_first()[j]).0 != n by {
            assert(t.drop_first()[j] == t[j + 1]);
        }
        if m < t.len() {
            assert(t.drop_first()[m - 1] == t[m]);
        }
        lemma_find_row_at(t.drop_first(), n, m - 1);
    }
}

proof fn lemma_find_row_bounds(t: Seq<(Seq<char>, Seq<char>, nat, nat)>, n: Seq<char>)
    ensures
        0 <= find_row(t, n) <= t.len(),
        find_row(t, n) < t.len() ==> t[find_row(t, n)].0 == n,
        forall|j: int| 0 <= j < find_row(t, n) ==> (#[trigger] t[j]).0 != n,
    decreases t.len(),
{
    if t.len() > 0 && t[0].0 != n {
        lemma_find_row_bounds(t.drop_first(), n);
        assert forall|j: int| 0 <= j < find_row(t, n) implies (#[trigger] t[j]).0 != n by {
            if j > 0 {
                assert(t[j] == t.drop_first()[j - 1]);
            }
        }
    }
}

proof fn lemma_total_lines_prefix(fs: Seq<ModuleSource>, i: int)
    requires
        0 <= i <= fs.len(),
    ensures
        0 <= total_lines(fs.take(i)) <= total_lines(fs),
    decreases fs.len(),
{
    if fs.len() > 0 {
        if i == fs.len() {
            assert(fs.take(i) =~= fs);
            lemma_total_lines_prefix(fs.drop_last(), i - 1);
        } else {
            assert(fs.take(i) =~= fs.drop_last().take(i));
            lemma_total_lines_prefix(fs.drop_last(), i);
        }
    } else {
        assert(fs.take(i) =~= fs);
    }
}

/// Every row counts at most `files` files and at most `loc` lines.
pub open spec fn rows_bounded(t: Seq<(Seq<char>, Seq<char>, nat, nat)>, files: int, loc: int) -> bool {
    forall|k: int| 0 <= k < t.len() ==> (#[trigger] t[k]).2 <= files && t[k].3 <= loc
}

proof fn lemma_table_bounded(fs: Seq<ModuleSource>)
    ensures
        rows_bounded(module_table(fs), fs.len() as int, total_lines(fs)),
    decreases fs.len(),
{
    if fs.len() > 0 {
        let prev = fs.drop_last();
        lemma_table_bounded(prev);
        lemma_total_lines_prefix(prev, prev.len() as int);
        assert(prev.take(prev.len() as int) =~= prev);
        let t = module_table(prev);
        let name = source_module(fs.last());
        let loc = source_lines(fs.last());
        let k = find_row(t, name);
        lemma_find_row_bounds(t, name);
        let t2 = module_table(fs);
        assert(t2 == table_add(t, name, loc));
        assert forall|j: int| 0 <= j < t2.len() implies (#[trigger] t2[j]).2 <= fs.len() as int
            && t2[j].3 <= total_lines(fs) by {
            if k < t.len() {
                if j != k {
                    assert(t2[j] == t[j]);
                }
            } else {
                if j < t.len() {
                    assert(t2[j] == t[j]);
                }
            }
        }
    }
}

impl DependencyAnalyzer {
    /// The project root the analyzer reads.
    pub closed spec fn root_path(&self) -> Seq<char> {
        self.root@
    }

    /// An analyzer of the project rooted at `root`.
    pub fn new(root: &str) -> (r: Self)
        ensures
            r.root_path() == root@,
    {
        DependencyAnalyzer { root: owned(root) }
    }

    /// The project root.
    pub fn root(&self) -> (r: &str)
        ensures
            r@ == self.root_path(),
    {
        self.root.as_str()
    }

    /// The module of a path relative to the source directory.
    pub fn get_module_name(&self, rel: &str) -> (r: String)
        ensures
            r@ == graph_module_name(rel@),
    {
        let c = to_chars(rel);
        let p = replace_char_in(c.as_slice(), '\\', '/');
        let k = find_char_from(p.as_slice(), '/', 0);
        proof {
            assert(p@.skip(0) =~= p@);
            lemma_first_index_of_bounds(p@, '/');
        }
        if k >= p.len() {
            return owned("root");
        }
        let top = sub_chars(p.as_slice(), 0, k);
        assert(top@ =~= p@.take(k as int));
        let j = find_char_from(p.as_slice(), '/', k + 1);
        let ghost rest = p@.skip(k + 1);
        proof {
            lemma_first_index_of_bounds(rest, '/');
        }
        if j >= p.len() {
            let m = to_chars("main.rs");
            let l = to_chars("lib.rs");
            if chars_eq(top.as_slice(), m.as_slice()) || chars_eq(top.as_slice(), l.as_slice()) {
                return owned("root");
            }
            return from_chars(top.as_slice());
        }
        let second = sub_chars(p.as_slice(), k + 1, j);
        assert(second@ =~= rest.take(first_index_of(rest, '/')));
        let mut r = from_chars(top.as_slice());
        push_str(&mut r, "::");
        if finishes(second.as_slice(), ".rs") {
            let t = trim_end_matches_exec(second.as_slice(), ".rs");
            crate::text::push_chars(&mut r, t.as_slice());
        } else {
            crate::text::push_chars(&mut r, second.as_slice());
        }
        r
    }

    /// The layer a module name starts with, empty when none.
    pub fn detect_layer_from_name(&self, module_name: &str) -> (r: String)
        ensures
            r@ == layer_from_name(module_name@),
    {
        let lower = to_lowercase(module_name);
        let l = to_chars(lower.as_str());
        if begins(l.as_slice(), "crate::domain") || begins(l.as_slice(), "domain") {
            owned("domain")
        } else if begins(l.as_slice(), "crate::application") || begins(l.as_slice(), "application") {
            owned("application")
        } else if begins(l.as_slice(), "crate::adapters") || begins(l.as_slice(), "adapters") {
            owned("adapters")
        } else if begins(l.as_slice(), "crate::interfaces") || begins(l.as_slice(), "interfaces") {
            owned("interfaces")
        } else {
            String::new()
        }
    }

    /// The module a `use crate::...` line imports.
    pub fn line_dependency(line: &[char]) -> (r: Option<String>)
        ensures
            match r {
                Some(d) => line_dependency(line@) == Some(d@),
                None => line_dependency(line@) is None,
            },
    {
        let t = trim_chars(line);
        if !begins(t.as_slice(), "use crate::") {
            return None;
        }
        let a = trim_start_matches_exec(t.as_slice(), "use crate::");
        let mp = before_first_exec(a.as_slice(), ";");
        let sep = to_chars("::");
        let k = find_sub_exec(mp.as_slice(), sep.as_slice());
        proof {
            lemma_find_sub_found(mp@, "::"@);
            reveal_strlit("::");
        }
        if k < mp.len() {
            let rest = sub_chars(mp.as_slice(), k + 2, mp.len());
            assert(rest@ =~= mp@.skip((k + 2) as int));
            let second = before_first_exec(rest.as_slice(), "::");
            let mut r = from_char_range(mp.as_slice(), 0, k);
            assert(r@ =~= mp@.take(k as int));
            push_str(&mut r, "::");
            crate::text::push_chars(&mut r, second.as_slice());
            Some(r)
        } else if mp.len() > 0 {
            Some(from_chars(mp.as_slice()))
        } else {
            None
        }
    }

    /// The imports of a text, each with its line number.
    pub fn extract_dependencies(&self, content: &str) -> (r: Vec<(String, usize)>)
        ensures
            r@.map_values(|d: (String, usize)| (d.0@, d.1 as nat)) == line_deps(lines(content@)),
    {
        let ls = str_lines(content);
        let ghost lv = views(ls@);
        let mut out: Vec<(String, usize)> = Vec::new();
        let n = ls.len();
        for i in 0..n
            invariant
                n == ls@.len(),
                lv == views(ls@),
                lv == lines(content@),
                out@.map_values(|d: (String, usize)| (d.0@, d.1 as nat)) == line_deps(lv.take(i as int)),
        {
            assert(lv.take(i + 1).drop_last() =~= lv.take(i as int));
            assert(lv[i as int] == ls@[i as int]@);
            let ghost before = out@;
            match Self::line_dependency(ls[i].as_slice()) {
                Some(d) => {
                    let ghost dv = d@;
                    out.push((d, i + 1));
                    assert(out@.map_values(|d: (String, usize)| (d.0@, d.1 as nat))
                        =~= before.map_values(|d: (String, usize)| (d.0@, d.1 as nat)).push((dv, (i + 1) as nat)));
                },
                None => {},
            }
            assert(out@.map_values(|d: (String, usize)| (d.0@, d.1 as nat)) =~= line_deps(lv.take(i + 1)));
        }
        assert(lv.take(n as int) =~= lv);
        out
    }
}

/// A module entry before its imports are linked.
pub open spec fn module_unlinked(m: ModuleInfo) -> bool {
    &&& m.path@ == m.name@
    &&& m.depends_on@.len() == 0
    &&& m.dependents@.len() == 0
    &&& m.incoming_deps == 0
    &&& m.outgoing_deps == 0
}

fn find_row_exec(ms: &Vec<ModuleInfo>, n: &str) -> (r: usize)
    ensures
        r as int == find_row(row_views(ms@), n@),
        r <= ms@.len(),
{
    let ghost v = row_views(ms@);
    let mut i: usize = 0;
    while i < ms.len()
        invariant
            i <= ms@.len(),
            v == row_views(ms@),
            forall|j: int| 0 <= j < i ==> (#[trigger] v[j]).0 != n@,
        decreases ms@.len() - i,
    {
        assert(v[i as int] == row_view(ms@[i as int]));
        if str_eq(ms[i].name.as_str(), n) {
            proof { lemma_find_row_at(v, n@, i as int); }
            return i;
        }
        i = i + 1;
    }
    proof { lemma_find_row_at(v, n@, i as int); }
    i
}

/// The imported modules of `n`, without repeats.
fn targets(es: &Vec<DependencyEdge>, n: &str) -> (r: Vec<String>)
    ensures
        string_views(r@) == distinct_in_order(targets_of(edge_views(es@), n@)),
{
    let ghost ev = edge_views(es@);
    let mut out: Vec<String> = Vec::new();
    for i in 0..es.len()
        invariant
            ev == edge_views(es@),
            string_views(out@) == distinct_in_order(targets_of(ev.take(i as int), n@)),
    {
        assert(ev.take(i + 1).drop_last() =~= ev.take(i as int));
        assert(ev.take(i + 1).last() == edge_view(es@[i as int]));
        if str_eq(es[i].from.as_str(), n) {
            push_new(&mut out, &es[i].to);
            let ghost t = targets_of(ev.take(i as int), n@);
            assert((t + seq![es@[i as int].to@]).drop_last() =~= t);
        } else {
            assert(targets_of(ev.take(i + 1), n@) =~= targets_of(ev.take(i as int), n@));
        }
    }
    assert(ev.take(es@.len() as int) =~= ev);
    out
}

/// The importing modules of `n`, without repeats.
fn sources(es: &Vec<DependencyEdge>, n: &str) -> (r: Vec<String>)
    ensures
        string_views(r@) == distinct_in_order(sources_of(edge_views(es@), n@)),
{
    let ghost ev = edge_views(es@);
    let mut out: Vec<String> = Vec::new();
    for i in 0..es.len()
        invariant
            ev == edge_views(es@),
            string_views(out@) == distinct_in_order(sources_of(ev.take(i as int), n@)),
    {
        assert(ev.take(i + 1).drop_last() =~= ev.take(i as int));
        assert(ev.take(i + 1).last() == edge_view(es@[i as int]));
        if str_eq(es[i].to.as_str(), n) {
            push_new(&mut out, &es[i].from);
            let ghost t = sources_of(ev.take(i as int), n@);
            assert((t + seq![es@[i as int].from@]).drop_last() =~= t);
        } else {
            assert(sources_of(ev.take(i + 1), n@) =~= sources_of(ev.take(i as int), n@));
        }
    }
    assert(ev.take(es@.len() as int) =~= ev);
    out
}

impl DependencyAnalyzer {
    fn add_file_edges(&self, es: &mut Vec<DependencyEdge>, module: &String, layer: &String, f: &ModuleSource)
        requires
            layer@ == layer_from_name(module@),
            module@ == source_module(*f),
        ensures
            edge_views(final(es)@) == edge_views(old(es)@) + source_file_edges(*f),
    {
        let ghost e0 = edge_views(es@);
        match &f.content {
            Some(c) => {
                let ds = self.extract_dependencies(c.as_str());
                let ghost dv = ds@.map_values(|d: (String, usize)| (d.0@, d.1 as nat));
                for j in 0..ds.len()
                    invariant
                        dv == ds@.map_values(|d: (String, usize)| (d.0@, d.1 as nat)),
                        layer@ == layer_from_name(module@),
                        edge_views(es@) == e0 + file_edges(module@, f.rel_path@, dv.take(j as int)),
                {
                    assert(dv.take(j + 1).drop_last() =~= dv.take(j as int));
                    assert(dv.take(j + 1).last() == (ds@[j as int].0@, ds@[j as int].1 as nat));
                    let dl = self.detect_layer_from_name(ds[j].0.as_str());
                    let dlc = to_chars(dl.as_str());
                    let cross = !str_eq(layer.as_str(), dl.as_str()) && dlc.len() > 0;
                    let e = DependencyEdge {
                        from: module.clone(),
                        to: ds[j].0.clone(),
                        file: f.rel_path.clone(),
                        line: ds[j].1,
                        is_cross_layer: cross,
                    };
                    let ghost before = edge_views(es@);
                    es.push(e);
                    assert(edge_views(es@) =~= before.push(edge_view(e)));
                    assert(edge_views(es@) =~= e0 + file_edges(module@, f.rel_path@, dv.take(j + 1)));
                }
                assert(dv.take(ds@.len() as int) =~= dv);
            },
            None => {
                assert(e0 + Seq::<(Seq<char>, Seq<char>, Seq<char>, nat, bool)>::empty() =~= e0);
            },
        }
    }

    fn line_count(f: &ModuleSource) -> (r: usize)
        ensures
            r as nat == source_lines(*f),
    {
        match &f.content {
            Some(c) => {
                let ls = str_lines(c.as_str());
                assert(views(ls@).len() == ls@.len());
                ls.len()
            },
            None => 0,
        }
    }

    /// The modules and imports of the source files.
    fn collect(&self, files: &Vec<ModuleSource>) -> (r: (Vec<ModuleInfo>, Vec<DependencyEdge>))
        requires
            total_lines(files@) <= usize::MAX,
        ensures
            row_views(r.0@) == module_table(files@),
            edge_views(r.1@) == all_edges(files@),
            forall|k: int| 0 <= k < r.0@.len() ==> module_unlinked(#[trigger] r.0@[k]),
    {
        let ghost fs = files@;
        let mut ms: Vec<ModuleInfo> = Vec::new();
        let mut es: Vec<DependencyEdge> = Vec::new();
        let n = files.len();
        for i in 0..n
            invariant
                n == fs.len(),
                fs == files@,
                total_lines(fs) <= usize::MAX,
                row_views(ms@) == module_table(fs.take(i as int)),
                edge_views(es@) == all_edges(fs.take(i as int)),
                forall|k: int| 0 <= k < ms@.len() ==> module_unlinked(#[trigger] ms@[k]),
        {
            assert(fs.take(i + 1).drop_last() =~= fs.take(i as int));
            proof {
                lemma_table_bounded(fs.take(i + 1));
                lemma_total_lines_prefix(fs, i + 1);
            }
            let f = &files[i];
            let module = self.get_module_name(f.src_path.as_str());
            let layer = self.detect_layer_from_name(module.as_str());
            let loc = Self::line_count(f);
            let ghost t = row_views(ms@);
            let k = find_row_exec(&ms, module.as_str());
            proof {
                lemma_find_row_bounds(t, module@);
            }
            if k < ms.len() {
                let mut e = ms.remove(k);
                let ghost rest = ms@;
                assert(row_view(e) == t[k as int]);
                let ghost t2 = module_table(fs.take(i + 1));
                assert(t2 == table_add(t, module@, loc as nat));
                assert(t2[k as int].3 == e.lines_of_code + loc);
                assert(t2[k as int].2 == e.file_count + 1);
                e.file_count = e.file_count + 1;
                e.lines_of_code = e.lines_of_code + loc;
                ms.insert(k, e);
                assert(row_views(ms@) =~= t2);
            } else {
                let entry = ModuleInfo {
                    name: module.clone(),
                    path: module.clone(),
                    layer: layer.clone(),
                    file_count: 1,
                    lines_of_code: loc,
                    incoming_deps: 0,
                    outgoing_deps: 0,
                    depends_on: Vec::new(),
                    dependents: Vec::new(),
                };
                ms.push(entry);
                assert(row_views(ms@) =~= t.push(row_view(entry)));
            }
            self.add_file_edges(&mut es, &module, &layer, f);
        }
        assert(fs.take(n as int) =~= fs);
        (ms, es)
    }

    /// Fills in each module's imports in both directions.
    fn link(ms: Vec<ModuleInfo>, es: &Vec<DependencyEdge>) -> (r: Vec<ModuleInfo>)
        requires
            forall|k: int| 0 <= k < ms@.len() ==> module_unlinked(#[trigger] ms@[k]),
        ensures
            row_views(r@) == row_views(ms@),
            forall|k: int| 0 <= k < r@.len() ==> module_linked(#[trigger] r@[k], edge_views(es@)),
    {
        let ghost input = ms@;
        let mut rest = ms;
        let mut out: Vec<ModuleInfo> = Vec::new();
        let n = rest.len();
        let mut i: usize = 0;
        while i < n
            invariant
                n == input.len(),
                i <= n,
                rest@ == input.skip(i as int),
                forall|k: int| 0 <= k < input.len() ==> module_unlinked(#[trigger] input[k]),
                row_views(out@) == row_views(input.take(i as int)),
                forall|k: int| 0 <= k < out@.len() ==> module_linked(#[trigger] out@[k], edge_views(es@)),
            decreases n - i,
        {
            let mut m = rest.remove(0);
            assert(m == input[i as int]);
            assert(input.skip(i + 1) =~= input.skip(i as int).remove(0));
            assert(module_unlinked(input[i as int]));
            let d = targets(es, m.name.as_str());
            let s = sources(es, m.name.as_str());
            m.outgoing_deps = d.len();
            m.incoming_deps = s.len();
            m.depends_on = d;
            m.dependents = s;
            let ghost before = out@;
            out.push(m);
            assert(input.take(i + 1) =~= input.take(i as int).push(input[i as int]));
            assert(row_views(out@) =~= row_views(before).push(row_view(m)));
            assert(row_view(m) == row_view(input[i as int]));
            assert(row_views(input.take(i + 1)) =~= row_views(input.take(i as int)).push(row_view(input[i as int])));
            i = i + 1;
        }
        assert(input.take(n as int) =~= input);
        out
    }
}

/// Module `u` imports the other module `v`.
pub open spec fn imports(ms: Seq<ModuleInfo>, u: int, v: int) -> bool {
    0 <= u < ms.len() && 0 <= v < ms.len() && u != v && string_views(ms[u].depends_on@).contains(ms[v].name@)
}

/// The import relation between the modules, as an adjacency matrix.
pub open spec fn import_graph(ms: Seq<ModuleInfo>) -> Seq<Seq<bool>> {
    Seq::new(ms.len(), |u: int| Seq::new(ms.len(), |v: int| imports(ms, u, v)))
}

/// No two modules share a name.
pub open spec fn names_distinct(ms: Seq<ModuleInfo>) -> bool {
    forall|i: int, j: int| 0 <= i < ms.len() && 0 <= j < ms.len() && i != j ==> (#[trigger] ms[i]).name@ != (#[trigger] ms[j]).name@
}

/// `c` is a cycle of the graph: each node leads to the next, the last back
/// to the first.
pub open spec fn closed_walk(g: Seq<Seq<bool>>, c: Seq<int>) -> bool {
    &&& c.len() >= 2
    &&& forall|j: int| 0 <= j < c.len() - 1 ==> #[trigger] step(g, c, j)
    &&& edge(g, c[c.len() - 1], c[0])
}

/// Two cycles of the same length with the nodes of `a` all in `b`.
pub open spec fn same_cycle(a: Seq<int>, b: Seq<int>) -> bool {
    a.len() == b.len() && forall|k: int| 0 <= k < a.len() ==> b.contains(#[trigger] a[k])
}

pub open spec fn ints(s: Seq<usize>) -> Seq<int> {
    s.map_values(|x: usize| x as int)
}

pub open spec fn cycle_ints(cs: Seq<Vec<usize>>) -> Seq<Seq<int>> {
    cs.map_values(|c: Vec<usize>| ints(c@))
}

/// The recorded cycles are cycles of the graph, none repeating an earlier one.
pub open spec fn cycles_ok(g: Seq<Seq<bool>>, cs: Seq<Seq<int>>) -> bool {
    &&& forall|i: int| 0 <= i < cs.len() ==> closed_walk(g, #[trigger] cs[i])
    &&& forall|i: int, j: int| 0 <= i < j < cs.len() ==> !same_cycle(#[trigger] cs[i], #[trigger] cs[j])
}

/// The successor lists list exactly the edges of the graph.
pub open spec fn succ_ok(g: Seq<Seq<bool>>, succ: Seq<Vec<usize>>) -> bool {
    &&& succ.len() == g.len()
    &&& forall|u: int, j: int| 0 <= u < g.len() && 0 <= j < succ[u]@.len() ==> (#[trigger] succ[u]@[j]) < g.len()
        && edge(g, u, succ[u]@[j] as int) && succ[u]@[j] != u
    &&& forall|u: int, v: int| #[trigger] edge(g, u, v) ==> exists|j: int| 0 <= j < succ[u]@.len() && succ[u]@[j] == v
}

/// The search stack: a walk of visited nodes, flagged on the stack.
pub open spec fn stack_ok(g: Seq<Seq<bool>>, vis: Seq<bool>, stk: Seq<bool>, path: Seq<int>) -> bool {
    let n = g.len();
    &&& vis.len() == n && stk.len() == n
    &&& forall|v: int| 0 <= v < n ==> (#[trigger] stk[v] <==> path.contains(v))
    &&& forall|k: int| 0 <= k < path.len() ==> 0 <= #[trigger] path[k] < n && vis[path[k]]
    &&& forall|k: int| 0 <= k < path.len() - 1 ==> #[trigger] step(g, path, k)
}

/// While no cycle is found: every finished node has a rank below `cnt`,
/// and its successors are finished with a smaller rank.
pub open spec fn rank_ok(g: Seq<Seq<bool>>, vis: Seq<bool>, stk: Seq<bool>, rank: Seq<int>, cnt: int) -> bool {
    let n = g.len();
    &&& rank.len() == n
    &&& forall|v: int| 0 <= v < n && #[trigger] finished(vis, stk, v) ==> rank[v] < cnt
    &&& forall|v: int, w: int| 0 <= v < n && finished(vis, stk, v) && #[trigger] edge(g, v, w) ==> finished(vis, stk, w)
        && rank[w] < rank[v]
}

proof fn lemma_closed_walk_from_stack(g: Seq<Seq<bool>>, path: Seq<int>, k: int, node: int, next: int)
    requires
        0 <= k < path.len(),
        path[k] == next,
        path[path.len() - 1] == node,
        forall|j: int| 0 <= j < path.len() - 1 ==> #[trigger] step(g, path, j),
        edge(g, node, next),
        node != next,
    ensures
        closed_walk(g, path.subrange(k, path.len() as int)),
{
    let c = path.subrange(k, path.len() as int);
    assert(c.len() >= 2) by {
        if c.len() < 2 {
            assert(k == path.len() - 1);
        }
    }
    assert forall|j: int| 0 <= j < c.len() - 1 implies #[trigger] step(g, c, j) by {
        assert(step(g, path, k + j));
    }
}

/// Whether some recorded cycle has the length of `c` and only nodes of `c`.
fn cycle_known(cycles: &Vec<Vec<usize>>, c: &Vec<usize>) -> (r: bool)
    ensures
        r == exists|i: int| 0 <= i < cycles@.len() && same_cycle(#[trigger] cycle_ints(cycles@)[i], ints(c@)),
{
    let ghost cs = cycle_ints(cycles@);
    for i in 0..cycles.len()
        invariant
            cs == cycle_ints(cycles@),
            forall|q: int| 0 <= q < i ==> !same_cycle(#[trigger] cs[q], ints(c@)),
    {
        let e = &cycles[i];
        assert(cs[i as int] == ints(e@));
        if e.len() == c.len() {
            let mut all = true;
            let mut k: usize = 0;
            while k < e.len()
                invariant
                    k <= e@.len(),
                    all ==> forall|q: int| 0 <= q < k ==> ints(c@).contains(#[trigger] ints(e@)[q]),
                    !all ==> !same_cycle(ints(e@), ints(c@)),
                decreases e@.len() - k,
            {
                let x = e[k];
                let mut found = false;
                for m in 0..c.len()
                    invariant
                        found ==> ints(c@).contains(x as int),
                        !found ==> forall|q: int| 0 <= q < m ==> c@[q] != x,
                {
                    if c[m] == x {
                        assert(ints(c@)[m as int] == x as int);
                        found = true;
                    }
                }
                if !found {
                    proof {
                        assert(ints(e@)[k as int] == x as int);
                        if ints(c@).contains(x as int) {
                            let q = choose|q: int| 0 <= q < ints(c@).len() && ints(c@)[q] == x as int;
                            assert(c@[q] == x);
                        }
                    }
                    all = false;
                }
                k = k + 1;
            }
            if all {
                assert(same_cycle(cs[i as int], ints(c@)));
                return true;
            }
        }
    }
    false
}

/// Depth-first search from `node`, recording each cycle closed by an edge
/// back onto the stack.
fn visit(
    node: usize,
    succ: &Vec<Vec<usize>>,
    visited: &mut Vec<bool>,
    on_stack: &mut Vec<bool>,
    stack: &mut Vec<usize>,
    cycles: &mut Vec<Vec<usize>>,
    Ghost(g): Ghost<Seq<Seq<bool>>>,
    Ghost(rank): Ghost<Seq<int>>,
    Ghost(cnt): Ghost<int>,
    Ghost(budget): Ghost<nat>,
) -> (res: Ghost<(Seq<int>, int)>)
    requires
        succ_ok(g, succ@),
        node < g.len(),
        !old(visited)@[node as int],
        budget == count_false(old(visited)@),
        stack_ok(g, old(visited)@, old(on_stack)@, ints(old(stack)@)),
        old(stack)@.len() > 0 ==> edge(g, old(stack)@[old(stack)@.len() - 1] as int, node as int),
        cycles_ok(g, cycle_ints(old(cycles)@)),
        old(cycles)@.len() == 0 ==> rank_ok(g, old(visited)@, old(on_stack)@, rank, cnt),
    ensures
        final(visited)@.len() == g.len(),
        final(on_stack)@ == old(on_stack)@,
        final(stack)@ == old(stack)@,
        forall|i: int| 0 <= i < g.len() && #[trigger] old(visited)@[i] ==> final(visited)@[i],
        final(visited)@[node as int],
        final(cycles)@.len() >= old(cycles)@.len(),
        cycles_ok(g, cycle_ints(final(cycles)@)),
        final(cycles)@.len() == 0 ==> ({
            let (rank2, cnt2) = res@;
            &&& rank_ok(g, final(visited)@, final(on_stack)@, rank2, cnt2)
            &&& finished(final(visited)@, final(on_stack)@, node as int)
            &&& cnt <= cnt2
            &&& forall|v: int| 0 <= v < g.len() && #[trigger] finished(old(visited)@, old(on_stack)@, v)
                ==> finished(final(visited)@, final(on_stack)@, v) && rank2[v] == rank[v]
        }),
    decreases budget,
{
    let n = visited.len();
    let ghost vis0 = visited@;
    let ghost stk0 = on_stack@;
    let ghost path = ints(stack@);
    let ghost st0 = stack@;
    visited.set(node, true);
    on_stack.set(node, true);
    stack.push(node);
    let ghost path2 = ints(stack@);
    assert(vis0.len() == n);
    let ghost mut rank_now = rank;
    let ghost mut cnt_now = cnt;
    proof {
        assert(path2 =~= path.push(node as int));
        lemma_count_false_mono(vis0, visited@, node as int);
        assert(!path.contains(node as int)) by {
            if path.contains(node as int) {
                let k = choose|k: int| 0 <= k < path.len() && path[k] == node as int;
                assert(vis0[path[k]]);
            }
        }
        assert forall|v: int| 0 <= v < n implies (#[trigger] on_stack@[v] <==> path2.contains(v)) by {
            if v != node as int {
                assert(stk0[v] <==> path.contains(v));
                if path2.contains(v) {
                    let k = choose|k: int| 0 <= k < path2.len() && path2[k] == v;
                    assert(path[k] == v);
                }
                if path.contains(v) {
                    let k = choose|k: int| 0 <= k < path.len() && path[k] == v;
                    assert(path2[k] == v);
                }
            } else {
                assert(path2[path.len() as int] == v);
            }
        }
        assert forall|k: int| 0 <= k < path2.len() implies 0 <= #[trigger] path2[k] < n && visited@[path2[k]] by {
            if k < path.len() {
                assert(path2[k] == path[k]);
            }
        }
        assert forall|k: int| 0 <= k < path2.len() - 1 implies #[trigger] step(g, path2, k) by {
            if k < path.len() - 1 {
                assert(step(g, path, k));
            } else {
                assert(path[path.len() - 1] == st0[st0.len() - 1] as int);
            }
        }
        if cycles@.len() == 0 {
            assert forall|v: int| 0 <= v < n && #[trigger] finished(visited@, on_stack@, v) implies finished(vis0, stk0, v) by {}
            assert forall|v: int, w: int|
                0 <= v < n && finished(visited@, on_stack@, v) && #[trigger] edge(g, v, w) implies finished(
                visited@, on_stack@, w) && rank[w] < rank[v] by {
                assert(finished(vis0, stk0, v));
                assert(finished(vis0, stk0, w));
            }
        }
    }
    let row = &succ[node];
    let m = row.len();
    for j in 0..m
        invariant
            succ_ok(g, succ@),
            n == g.len(),
            node < n,
            *row == succ@[node as int],
            m == row@.len(),
            visited@.len() == n,
            on_stack@.len() == n,
            vis0 == old(visited)@,
            vis0.len() == n,
            !vis0[node as int],
            stk0 == old(on_stack)@,
            st0 == old(stack)@,
            path == ints(st0),
            ints(stack@) == path2,
            path2 == path.push(node as int),
            stack@ == st0.push(node),
            !path.contains(node as int),
            visited@[node as int],
            budget == count_false(vis0),
            count_false(visited@) < budget,
            forall|i: int| 0 <= i < n && #[trigger] vis0[i] ==> visited@[i],
            stack_ok(g, visited@, on_stack@, path2),
            on_stack@ == stk0.update(node as int, true),
            cycles@.len() >= old(cycles)@.len(),
            cycles_ok(g, cycle_ints(cycles@)),
            cycles@.len() == 0 ==> {
                &&& rank_ok(g, visited@, on_stack@, rank_now, cnt_now)
                &&& cnt <= cnt_now
                &&& forall|q: int| 0 <= q < j ==> finished(visited@, on_stack@, #[trigger] row@[q] as int)
                    && rank_now[row@[q] as int] < cnt_now
                &&& forall|v: int| 0 <= v < n && #[trigger] finished(vis0, stk0, v) ==> finished(visited@, on_stack@, v)
                    && rank_now[v] == rank[v]
            },
    {
        let next = row[j];
        assert(edge(g, node as int, next as int));
        if !visited[next] {
            let ghost vis1 = visited@;
            let ghost stk1 = on_stack@;
            let ghost budget1 = count_false(vis1);
            let ghost c1 = cycles@.len();
            proof {
                assert(stack@[stack@.len() - 1] == node);
            }
            let res = visit(next, succ, visited, on_stack, stack, cycles, Ghost(g), Ghost(rank_now), Ghost(cnt_now),
                Ghost(budget1));
            proof {
                assert forall|i: int| 0 <= i < n && #[trigger] vis0[i] implies visited@[i] by {
                    assert(vis1[i]);
                }
                assert(visited@[node as int]) by {
                    assert(vis1[node as int]);
                }
                lemma_count_false_mono(vis0, visited@, node as int);
                assert forall|k: int| 0 <= k < path2.len() implies 0 <= #[trigger] path2[k] < n && visited@[path2[k]] by {
                    assert(vis1[path2[k]]);
                }
                if cycles@.len() == 0 {
                    let ghost r1 = rank_now;
                    rank_now = res@.0;
                    cnt_now = res@.1;
                    assert forall|q: int| 0 <= q < j + 1 implies finished(visited@, on_stack@, #[trigger] row@[q] as int)
                        && rank_now[row@[q] as int] < cnt_now by {
                        if q < j {
                            assert(finished(vis1, stk1, row@[q] as int));
                        }
                    }
                    assert forall|v: int| 0 <= v < n && #[trigger] finished(vis0, stk0, v) implies finished(visited@,
                        on_stack@, v) && rank_now[v] == rank[v] by {
                        assert(finished(vis1, stk1, v));
                    }
                }
            }
        } else if on_stack[next] {
            let ghost cur = stack@;
            proof {
                assert(path2.contains(next as int));
            }
            let mut start: usize = 0;
            let sl = stack.len();
            while stack[start] != next
                invariant
                    sl == stack@.len(),
                    start < stack@.len(),
                    stack@ == cur,
                    ints(cur) == path2,
                    path2.contains(next as int),
                    forall|q: int| 0 <= q < start ==> cur[q] != next,
                decreases stack@.len() - start,
            {
                proof {
                    let k = choose|k: int| 0 <= k < path2.len() && path2[k] == next as int;
                    assert(cur[k] == next);
                    assert(k != start);
                    assert(k > start);
                    assert(start + 1 < sl);
                }
                start = start + 1;
            }
            let c = sub_usize(stack, start);
            proof {
                assert(path2[start as int] == next as int);
                assert(path2[path2.len() - 1] == node as int);
                lemma_closed_walk_from_stack(g, path2, start as int, node as int, next as int);
                assert(ints(c@) =~= path2.subrange(start as int, path2.len() as int));
            }
            if !cycle_known(cycles, &c) {
                let ghost before = cycle_ints(cycles@);
                let ghost ci = ints(c@);
                cycles.push(c);
                proof {
                    let after = cycle_ints(cycles@);
                    assert(after =~= before.push(ci));
                    assert forall|i: int| 0 <= i < after.len() implies closed_walk(g, #[trigger] after[i]) by {
                        if i < before.len() {
                            assert(after[i] == before[i]);
                        }
                    }
                    assert forall|a: int, b: int| 0 <= a < b < after.len() implies !same_cycle(#[trigger] after[a],
                        #[trigger] after[b]) by {
                        if b < before.len() {
                            assert(after[a] == before[a] && after[b] == before[b]);
                        } else {
                            assert(after[a] == before[a]);
                            assert(after[b] == ci);
                        }
                    }
                }
            }
        } else {
            proof {
                if cycles@.len() == 0 {
                    assert(finished(visited@, on_stack@, next as int));
                    assert forall|q: int| 0 <= q < j + 1 implies finished(visited@, on_stack@, #[trigger] row@[q] as int)
                        && rank_now[row@[q] as int] < cnt_now by {}
                }
            }
        }
    }
    let ghost vis2 = visited@;
    let ghost stk2 = on_stack@;
    stack.pop();
    on_stack.set(node, false);
    let ghost rank_out = rank_now.update(node as int, cnt_now);
    let ghost cnt_out = cnt_now + 1;
    proof {
        assert(stack@ =~= st0);
        assert(on_stack@ =~= stk0) by {
            assert(!stk0[node as int]);
        }
        if cycles@.len() == 0 {
            assert forall|v: int| 0 <= v < n && #[trigger] finished(visited@, on_stack@, v) implies rank_out[v] < cnt_out by {
                if v != node as int {
                    assert(finished(vis2, stk2, v));
                }
            }
            assert forall|v: int, w: int|
                0 <= v < n && finished(visited@, on_stack@, v) && #[trigger] edge(g, v, w) implies finished(
                visited@, on_stack@, w) && rank_out[w] < rank_out[v] by {
                if v == node as int {
                    let q = choose|q: int| 0 <= q < succ@[v]@.len() && succ@[v]@[q] == w;
                    assert(finished(vis2, stk2, row@[q] as int));
                    assert(w != node as int);
                } else {
                    assert(finished(vis2, stk2, v));
                    assert(finished(vis2, stk2, w));
                    assert(w != node as int);
                }
            }
            assert forall|v: int| 0 <= v < n && #[trigger] finished(vis0, stk0, v) implies finished(visited@, on_stack@, v)
                && rank_out[v] == rank[v] by {
                assert(finished(vis2, stk2, v));
            }
        }
    }
    Ghost((rank_out, cnt_out))
}

/// The entries of `v` from `start` on.
fn sub_usize(v: &Vec<usize>, start: usize) -> (r: Vec<usize>)
    requires
        start <= v@.len(),
    ensures
        r@ == v@.subrange(start as int, v@.len() as int),
{
    let mut r: Vec<usize> = Vec::new();
    let mut i = start;
    while i < v.len()
        invariant
            start <= i <= v@.len(),
            r@ == v@.subrange(start as int, i as int),
        decreases v@.len() - i,
    {
        r.push(v[i]);
        assert(v@.subrange(start as int, i + 1) =~= v@.subrange(start as int, i as int).push(v@[i as int]));
        i = i + 1;
    }
    r
}

/// All cycles found by a depth-first search over every node in turn; some
/// cycle is found exactly when the graph has one.
fn search_cycles(succ: &Vec<Vec<usize>>, Ghost(g): Ghost<Seq<Seq<bool>>>) -> (r: Vec<Vec<usize>>)
    requires
        succ_ok(g, succ@),
    ensures
        cycles_ok(g, cycle_ints(r@)),
        r@.len() > 0 <==> has_cycle(g),
{
    let n = succ.len();
    let mut visited: Vec<bool> = Vec::new();
    let mut on_stack: Vec<bool> = Vec::new();
    for i in 0..n
        invariant
            visited@.len() == i && on_stack@.len() == i,
            forall|j: int| 0 <= j < i ==> !visited@[j] && !on_stack@[j],
    {
        visited.push(false);
        on_stack.push(false);
    }
    let mut stack: Vec<usize> = Vec::new();
    let mut cycles: Vec<Vec<usize>> = Vec::new();
    let ghost mut rank: Seq<int> = Seq::new(n as nat, |i: int| 0);
    let ghost mut cnt: int = 0;
    proof {
        assert(ints(stack@) =~= Seq::<int>::empty());
        assert(cycle_ints(cycles@) =~= Seq::<Seq<int>>::empty());
    }
    for i in 0..n
        invariant
            n == g.len(),
            succ_ok(g, succ@),
            visited@.len() == n && on_stack@.len() == n,
            stack@.len() == 0,
            forall|v: int| 0 <= v < n ==> !(#[trigger] on_stack@[v]),
            cycles_ok(g, cycle_ints(cycles@)),
            cycles@.len() == 0 ==> rank_ok(g, visited@, on_stack@, rank, cnt),
            cycles@.len() == 0 ==> forall|j: int| 0 <= j < i ==> #[trigger] visited@[j],
    {
        if !visited[i] {
            let ghost vis1 = visited@;
            proof {
                assert(ints(stack@) =~= Seq::<int>::empty());
                assert(stack_ok(g, visited@, on_stack@, ints(stack@)));
            }
            let res = visit(i, succ, &mut visited, &mut on_stack, &mut stack, &mut cycles, Ghost(g), Ghost(rank),
                Ghost(cnt), Ghost(count_false(vis1)));
            proof {
                if cycles@.len() == 0 {
                    rank = res@.0;
                    cnt = res@.1;
                    assert forall|j: int| 0 <= j < i + 1 implies #[trigger] visited@[j] by {
                        if j < i {
                            assert(vis1[j]);
                        }
                    }
                }
            }
        }
    }
    proof {
        if cycles@.len() > 0 {
            let c = cycle_ints(cycles@)[0];
            assert(closed_walk(g, c));
            let p = c.push(c[0]);
            assert forall|k: int| 0 <= k < p.len() - 1 implies #[trigger] step(g, p, k) by {
                if k < c.len() - 1 {
                    assert(step(g, c, k));
                }
            }
            assert(is_walk(g, p) && p[0] == p[p.len() - 1]);
        } else if has_cycle(g) {
            let p = choose|p: Seq<int>| #[trigger] is_walk(g, p) && p[0] == p[p.len() - 1];
            assert forall|v: int, w: int| #[trigger] edge(g, v, w) implies rank[w] < rank[v] by {
                assert(visited@[v]);
                assert(finished(visited@, on_stack@, v));
            }
            lemma_walk_rank(g, rank, p);
        }
    }
    cycles
}

/// No two rows share a module name.
pub open spec fn rows_distinct(t: Seq<(Seq<char>, Seq<char>, nat, nat)>) -> bool {
    forall|i: int, j: int| 0 <= i < t.len() && 0 <= j < t.len() && i != j ==> (#[trigger] t[i]).0 != (#[trigger] t[j]).0
}

proof fn lemma_table_distinct(fs: Seq<ModuleSource>)
    ensures
        rows_distinct(module_table(fs)),
    decreases fs.len(),
{
    if fs.len() > 0 {
        let prev = fs.drop_last();
        lemma_table_distinct(prev);
        let t = module_table(prev);
        let name = source_module(fs.last());
        lemma_find_row_bounds(t, name);
        let t2 = module_table(fs);
        assert forall|i: int, j: int| 0 <= i < t2.len() && 0 <= j < t2.len() && i != j implies (#[trigger] t2[i]).0
            != (#[trigger] t2[j]).0 by {
            if find_row(t, name) < t.len() {
                assert(t2[i].0 == t[i].0 && t2[j].0 == t[j].0);
            } else {
                if i < t.len() && j < t.len() {
                    assert(t2[i] == t[i] && t2[j] == t[j]);
                } else if i < t.len() {
                    assert(t2[i] == t[i]);
                } else {
                    assert(t2[j] == t[j]);
                }
            }
        }
    }
}

proof fn lemma_find_distinct(ms: Seq<ModuleInfo>, v: int)
    requires
        names_distinct(ms),
        0 <= v < ms.len(),
    ensures
        find_row(row_views(ms), ms[v].name@) == v,
{
    let t = row_views(ms);
    assert forall|j: int| 0 <= j < v implies (#[trigger] t[j]).0 != ms[v].name@ by {
        assert(t[j].0 == ms[j].name@);
    }
    lemma_find_row_at(t, ms[v].name@, v);
}

/// The successor lists of the import graph, in the order of each
/// module's imports.
fn successors(ms: &Vec<ModuleInfo>) -> (r: Vec<Vec<usize>>)
    requires
        names_distinct(ms@),
    ensures
        succ_ok(import_graph(ms@), r@),
{
    let ghost g = import_graph(ms@);
    let ghost t = row_views(ms@);
    let n = ms.len();
    let mut out: Vec<Vec<usize>> = Vec::new();
    for u in 0..n
        invariant
            n == ms@.len(),
            g == import_graph(ms@),
            t == row_views(ms@),
            names_distinct(ms@),
            out@.len() == u,
            forall|a: int, j: int| 0 <= a < u && 0 <= j < out@[a]@.len() ==> (#[trigger] out@[a]@[j]) < n
                && edge(g, a, out@[a]@[j] as int) && out@[a]@[j] != a,
            forall|a: int, v: int| 0 <= a < u && #[trigger] edge(g, a, v) ==> exists|j: int| 0 <= j < out@[a]@.len()
                && out@[a]@[j] == v,
    {
        let deps = &ms[u].depends_on;
        let ghost dv = string_views(deps@);
        let mut row: Vec<usize> = Vec::new();
        for q in 0..deps.len()
            invariant
                n == ms@.len(),
                g == import_graph(ms@),
                t == row_views(ms@),
                u < n,
                *deps == ms@[u as int].depends_on,
                dv == string_views(deps@),
                forall|j: int| 0 <= j < row@.len() ==> (#[trigger] row@[j]) < n && edge(g, u as int, row@[j] as int)
                    && row@[j] != u,
                forall|k: int| 0 <= k < q && find_row(t, #[trigger] dv[k]) < n && find_row(t, dv[k]) != u
                    ==> exists|j: int| 0 <= j < row@.len() && row@[j] == find_row(t, dv[k]),
        {
            let v = find_row_exec(ms, deps[q].as_str());
            assert(dv[q as int] == deps@[q as int]@);
            proof {
                lemma_find_row_bounds(t, dv[q as int]);
            }
            if v < n && v != u {
                proof {
                    assert(t[v as int].0 == ms@[v as int].name@);
                    assert(dv.contains(ms@[v as int].name@));
                    assert(imports(ms@, u as int, v as int));
                }
                let ghost before = row@;
                row.push(v);
                proof {
                    assert forall|k: int| 0 <= k < q + 1 && find_row(t, #[trigger] dv[k]) < n && find_row(t, dv[k]) != u
                        implies exists|j: int| 0 <= j < row@.len() && row@[j] == find_row(t, dv[k]) by {
                        if k < q {
                            let j = choose|j: int| 0 <= j < before.len() && before[j] == find_row(t, dv[k]);
                            assert(row@[j] == before[j]);
                        } else {
                            assert(row@[before.len() as int] == v);
                        }
                    }
                }
            }
        }
        proof {
            assert forall|v: int| #[trigger] edge(g, u as int, v) implies exists|j: int| 0 <= j < row@.len() && row@[j] == v by {
                assert(imports(ms@, u as int, v));
                let k = choose|k: int| 0 <= k < dv.len() && dv[k] == ms@[v].name@;
                lemma_find_distinct(ms@, v);
            }
        }
        let ghost before = out@;
        let ghost rowv = row@;
        out.push(row);
        proof {
            assert forall|a: int, j: int| 0 <= a < u + 1 && 0 <= j < out@[a]@.len() implies (#[trigger] out@[a]@[j]) < n
                && edge(g, a, out@[a]@[j] as int) && out@[a]@[j] != a by {
                if a < u {
                    assert(out@[a] == before[a]);
                }
            }
            assert forall|a: int, v: int| 0 <= a < u + 1 && #[trigger] edge(g, a, v) implies exists|j: int| 0 <= j
                < out@[a]@.len() && out@[a]@[j] == v by {
                if a < u {
                    assert(out@[a] == before[a]);
                } else {
                    assert(out@[a]@ == rowv);
                    let j = choose|j: int| 0 <= j < rowv.len() && rowv[j] == v;
                    assert(out@[a]@[j] == v);
                }
            }
        }
    }
    out
}

/// The names of the modules along a cycle of the import graph.
pub open spec fn named_cycle(ms: Seq<ModuleInfo>, names: Seq<Seq<char>>) -> bool {
    exists|c: Seq<int>| #[trigger] closed_walk(import_graph(ms), c) && c.len() == names.len()
        && forall|j: int| 0 <= j < c.len() ==> names[j] == ms[c[j]].name@
}

/// Two name cycles of the same length with the names of `a` all in `b`.
pub open spec fn same_names(a: Seq<Seq<char>>, b: Seq<Seq<char>>) -> bool {
    a.len() == b.len() && forall|k: int| 0 <= k < a.len() ==> b.contains(#[trigger] a[k])
}

pub open spec fn name_cycles(cs: Seq<Vec<String>>) -> Seq<Seq<Seq<char>>> {
    cs.map_values(|c: Vec<String>| string_views(c@))
}

/// The reported cycles are cycles of the import graph, none repeating an
/// earlier one.
pub open spec fn reported_cycles_ok(ms: Seq<ModuleInfo>, cs: Seq<Seq<Seq<char>>>) -> bool {
    &&& forall|i: int| 0 <= i < cs.len() ==> named_cycle(ms, #[trigger] cs[i])
    &&& forall|i: int, j: int| 0 <= i < j < cs.len() ==> !same_names(#[trigger] cs[i], #[trigger] cs[j])
}

proof fn lemma_walk_in_range(g: Seq<Seq<bool>>, c: Seq<int>, j: int)
    requires
        closed_walk(g, c),
        0 <= j < c.len(),
    ensures
        0 <= c[j] < g.len(),
{
    if j < c.len() - 1 {
        assert(step(g, c, j));
    }
}

/// The names along an index cycle.
fn cycle_names(ms: &Vec<ModuleInfo>, c: &Vec<usize>) -> (r: Vec<String>)
    requires
        closed_walk(import_graph(ms@), ints(c@)),
    ensures
        r@.len() == c@.len(),
        forall|j: int| 0 <= j < c@.len() ==> (#[trigger] string_views(r@)[j]) == ms@[c@[j] as int].name@,
{
    let ghost g = import_graph(ms@);
    let mut r: Vec<String> = Vec::new();
    for j in 0..c.len()
        invariant
            closed_walk(g, ints(c@)),
            g == import_graph(ms@),
            r@.len() == j,
            forall|k: int| 0 <= k < j ==> (#[trigger] string_views(r@)[k]) == ms@[c@[k] as int].name@,
    {
        proof {
            lemma_walk_in_range(g, ints(c@), j as int);
        }
        let ghost before = r@;
        let nm = ms[c[j]].name.clone();
        assert(nm@ == ms@[c@[j as int] as int].name@);
        r.push(nm);
        proof {
            assert(string_views(r@) =~= string_views(before).push(nm@));
            assert forall|k: int| 0 <= k < j + 1 implies (#[trigger] string_views(r@)[k]) == ms@[c@[k] as int].name@ by {
                if k < j {
                    assert(string_views(r@)[k] == string_views(before)[k]);
                }
            }
        }
    }
    r
}

/// The import cycles between the modules, each by module names; some is
/// reported exactly when the import graph has a cycle.
fn find_cycles(ms: &Vec<ModuleInfo>) -> (r: Vec<Vec<String>>)
    requires
        names_distinct(ms@),
    ensures
        reported_cycles_ok(ms@, name_cycles(r@)),
        r@.len() > 0 <==> has_cycle(import_graph(ms@)),
{
    let ghost g = import_graph(ms@);
    let succ = successors(ms);
    let cs = search_cycles(&succ, Ghost(g));
    let ghost ci = cycle_ints(cs@);
    let mut out: Vec<Vec<String>> = Vec::new();
    for i in 0..cs.len()
        invariant
            g == import_graph(ms@),
            names_distinct(ms@),
            ci == cycle_ints(cs@),
            cycles_ok(g, ci),
            out@.len() == i,
            forall|k: int| 0 <= k < i ==> (#[trigger] name_cycles(out@)[k]).len() == ci[k].len()
                && forall|j: int| 0 <= j < ci[k].len() ==> name_cycles(out@)[k][j] == ms@[ci[k][j]].name@,
    {
        assert(ci[i as int] == ints(cs@[i as int]@));
        assert(closed_walk(g, ci[i as int]));
        let names = cycle_names(ms, &cs[i]);
        let ghost before = out@;
        let ghost nv = string_views(names@);
        out.push(names);
        proof {
            assert(name_cycles(out@) =~= name_cycles(before).push(nv));
            assert forall|k: int| 0 <= k < i + 1 implies (#[trigger] name_cycles(out@)[k]).len() == ci[k].len()
                && forall|j: int| 0 <= j < ci[k].len() ==> name_cycles(out@)[k][j] == ms@[ci[k][j]].name@ by {
                if k < i {
                    assert(name_cycles(out@)[k] == name_cycles(before)[k]);
                } else {
                    assert(name_cycles(out@)[k] == nv);
                    assert forall|j: int| 0 <= j < ci[k].len() implies name_cycles(out@)[k][j] == ms@[ci[k][j]].name@ by {
                        assert(nv[j] == ms@[cs@[i as int]@[j] as int].name@);
                    }
                }
            }
        }
    }
    proof {
        let nc = name_cycles(out@);
        assert forall|i: int| 0 <= i < nc.len() implies named_cycle(ms@, #[trigger] nc[i]) by {
            assert(closed_walk(g, ci[i]));
        }
        assert forall|a: int, b: int| 0 <= a < b < nc.len() implies !same_names(#[trigger] nc[a], #[trigger] nc[b]) by {
            assert(!same_cycle(ci[a], ci[b]));
            if same_names(nc[a], nc[b]) {
                assert forall|k: int| 0 <= k < ci[a].len() implies ci[b].contains(#[trigger] ci[a][k]) by {
                    assert(nc[b].contains(nc[a][k]));
                    let m = choose|m: int| 0 <= m < nc[b].len() && nc[b][m] == nc[a][k];
                    lemma_walk_in_range(g, ci[a], k);
                    lemma_walk_in_range(g, ci[b], m);
                    assert(ms@[ci[b][m]].name@ == ms@[ci[a][k]].name@);
                    assert(ci[b][m] == ci[a][k]);
                }
                assert(same_cycle(ci[a], ci[b]));
            }
        }
    }
    out
}

/// The position of a layer in the inward-to-outward order (99 for others).
pub open spec fn layer_rank_of(l: Seq<char>) -> int {
    if l == "domain"@ {
        0
    } else if l == "application"@ {
        1
    } else if l == "adapters"@ {
        2
    } else if l == "interfaces"@ {
        3
    } else {
        99
    }
}

pub open spec fn violation_view(v: LayerViolation) -> (Seq<char>, Seq<char>, Seq<char>, Seq<char>, Seq<char>, Seq<char>) {
    (v.from_layer@, v.to_layer@, v.from_module@, v.to_module@, v.file@, v.description@)
}

pub open spec fn violation_views(vs: Seq<LayerViolation>) -> Seq<(Seq<char>, Seq<char>, Seq<char>, Seq<char>, Seq<char>, Seq<char>)> {
    vs.map_values(|v: LayerViolation| violation_view(v))
}

/// The violation an import between two known modules makes when it points
/// from an inner layer to an outer one.
pub open spec fn edge_violation(ms: Seq<ModuleInfo>, e: (Seq<char>, Seq<char>, Seq<char>, nat, bool))
    -> Seq<(Seq<char>, Seq<char>, Seq<char>, Seq<char>, Seq<char>, Seq<char>)> {
    let t = row_views(ms);
    let fi = find_row(t, e.0);
    let ti = find_row(t, e.1);
    if fi < t.len() && ti < t.len() {
        let fl = t[fi].1;
        let tl = t[ti].1;
        if layer_rank_of(fl) < layer_rank_of(tl) && layer_rank_of(fl) < 4 && layer_rank_of(tl) < 4 {
            seq![(fl, tl, e.0, e.1, e.2, fl + "层 ("@ + e.0 + ") 依赖了 "@ + tl + "层 ("@ + e.1 + "), 违反依赖方向"@)]
        } else {
            Seq::empty()
        }
    } else {
        Seq::empty()
    }
}

/// The layer pairs an import must not go along: from an inner layer
/// (domain, then application, adapters, interfaces) to an outer one.
pub open spec fn outward_pair(from: Seq<char>, to: Seq<char>) -> bool {
    ||| from == "domain"@ && (to == "application"@ || to == "adapters"@ || to == "interfaces"@)
    ||| from == "application"@ && (to == "adapters"@ || to == "interfaces"@)
    ||| from == "adapters"@ && to == "interfaces"@
}

/// The report of an import of `to_module` (in layer `tl`) by `from_module` (in layer `fl`).
pub open spec fn direction_violation(fl: Seq<char>, tl: Seq<char>, e: (Seq<char>, Seq<char>, Seq<char>, nat, bool))
    -> (Seq<char>, Seq<char>, Seq<char>, Seq<char>, Seq<char>, Seq<char>) {
    (fl, tl, e.0, e.1, e.2, fl + "层 ("@ + e.0 + ") 依赖了 "@ + tl + "层 ("@ + e.1 + "), 违反依赖方向"@)
}

proof fn lemma_find_row_first(t: Seq<(Seq<char>, Seq<char>, nat, nat)>, n: Seq<char>, a: int)
    requires
        0 <= a < t.len(),
        t[a].0 == n,
        forall|j: int| 0 <= j < a ==> (#[trigger] t[j]).0 != n,
    ensures
        find_row(t, n) == a,
    decreases a,
{
    if a > 0 {
        assert forall|j: int| 0 <= j < a - 1 implies (#[trigger] t.drop_first()[j]).0 != n by {
            assert(t.drop_first()[j] == t[j + 1]);
        }
        lemma_find_row_first(t.drop_first(), n, a - 1);
    }
}

proof fn lemma_layer_names()
    ensures
        "domain"@ != "application"@, "domain"@ != "adapters"@, "domain"@ != "interfaces"@,
        "application"@ != "adapters"@, "application"@ != "interfaces"@, "adapters"@ != "interfaces"@,
{
    reveal_strlit("domain");
    reveal_strlit("application");
    reveal_strlit("adapters");
    reveal_strlit("interfaces");
    assert("domain"@.len() == 6 && "application"@.len() == 11 && "adapters"@.len() == 8 && "interfaces"@.len() == 10);
}

/// An import between two known modules is reported exactly when it goes
/// from an inner layer to an outer one (domain, application, adapters,
/// interfaces, from the inside out), with the layers and modules named.
pub proof fn law_outward_imports_are_violations(ms: Seq<ModuleInfo>, e: (Seq<char>, Seq<char>, Seq<char>, nat, bool),
    a: int, b: int)
    requires
        0 <= a < ms.len(),
        0 <= b < ms.len(),
        ms[a].name@ == e.0,
        ms[b].name@ == e.1,
        forall|j: int| 0 <= j < a ==> (#[trigger] ms[j]).name@ != e.0,
        forall|j: int| 0 <= j < b ==> (#[trigger] ms[j]).name@ != e.1,
    ensures
        outward_pair(ms[a].layer@, ms[b].layer@) ==> edge_violation(ms, e) == seq![direction_violation(ms[a].layer@, ms[b].layer@, e)],
        !outward_pair(ms[a].layer@, ms[b].layer@) ==> edge_violation(ms, e).len() == 0,
{
    let t = row_views(ms);
    assert forall|j: int| 0 <= j < a implies (#[trigger] t[j]).0 != e.0 by {
        assert(t[j] == row_view(ms[j]));
    }
    assert forall|j: int| 0 <= j < b implies (#[trigger] t[j]).0 != e.1 by {
        assert(t[j] == row_view(ms[j]));
    }
    assert(t[a] == row_view(ms[a]) && t[b] == row_view(ms[b]));
    lemma_find_row_first(t, e.0, a);
    lemma_find_row_first(t, e.1, b);
    lemma_layer_names();
}

/// Every import from an inner layer to an outer one between known modules
/// appears among the violations of the imports.
pub proof fn law_outward_import_reported(ms: Seq<ModuleInfo>, es: Seq<(Seq<char>, Seq<char>, Seq<char>, nat, bool)>,
    k: int, a: int, b: int)
    requires
        0 <= k < es.len(),
        0 <= a < ms.len(),
        0 <= b < ms.len(),
        ms[a].name@ == es[k].0,
        ms[b].name@ == es[k].1,
        forall|j: int| 0 <= j < a ==> (#[trigger] ms[j]).name@ != es[k].0,
        forall|j: int| 0 <= j < b ==> (#[trigger] ms[j]).name@ != es[k].1,
        outward_pair(ms[a].layer@, ms[b].layer@),
    ensures
        layer_violations_of(ms, es).contains(direction_violation(ms[a].layer@, ms[b].layer@, es[k])),
    decreases es.len(),
{
    let v = direction_violation(ms[a].layer@, ms[b].layer@, es[k]);
    let pre = layer_violations_of(ms, es.drop_last());
    if k == es.len() - 1 {
        law_outward_imports_are_violations(ms, es[k], a, b);
        assert(layer_violations_of(ms, es) == pre + seq![v]);
        assert((pre + seq![v])[pre.len() as int] == v);
    } else {
        assert(es.drop_last()[k] == es[k]);
        law_outward_import_reported(ms, es.drop_last(), k, a, b);
        let i = choose|i: int| 0 <= i < pre.len() && pre[i] == v;
        let post = edge_violation(ms, es.last());
        assert((pre + post)[i] == v);
    }
}

/// The violations of the imports, in order.
pub open spec fn layer_violations_of(ms: Seq<ModuleInfo>, es: Seq<(Seq<char>, Seq<char>, Seq<char>, nat, bool)>)
    -> Seq<(Seq<char>, Seq<char>, Seq<char>, Seq<char>, Seq<char>, Seq<char>)>
    decreases es.len(),
{
    if es.len() == 0 {
        Seq::empty()
    } else {
        layer_violations_of(ms, es.drop_last()) + edge_violation(ms, es.last())
    }
}

fn rank_of_layer(l: &str) -> (r: u32)
    ensures
        r as int == layer_rank_of(l@),
{
    if str_eq(l, "domain") {
        0
    } else if str_eq(l, "application") {
        1
    } else if str_eq(l, "adapters") {
        2
    } else if str_eq(l, "interfaces") {
        3
    } else {
        99
    }
}

fn edge_violation_exec(ms: &Vec<ModuleInfo>, e: &DependencyEdge, out: &mut Vec<LayerViolation>)
    ensures
        violation_views(final(out)@) == violation_views(old(out)@) + edge_violation(ms@, edge_view(*e)),
{
    let ghost t = row_views(ms@);
    let ghost o0 = violation_views(out@);
    let fi = find_row_exec(ms, e.from.as_str());
    let ti = find_row_exec(ms, e.to.as_str());
    if fi < ms.len() && ti < ms.len() {
        let fl = &ms[fi].layer;
        let tl = &ms[ti].layer;
        assert(t[fi as int].1 == fl@ && t[ti as int].1 == tl@);
        let fr = rank_of_layer(fl.as_str());
        let tr = rank_of_layer(tl.as_str());
        if fr < tr && fr < 4 && tr < 4 {
            let mut d = fl.clone();
            push_str(&mut d, "层 (");
            push_str(&mut d, e.from.as_str());
            push_str(&mut d, ") 依赖了 ");
            push_str(&mut d, tl.as_str());
            push_str(&mut d, "层 (");
            push_str(&mut d, e.to.as_str());
            push_str(&mut d, "), 违反依赖方向");
            let v = LayerViolation {
                from_layer: fl.clone(),
                to_layer: tl.clone(),
                from_module: e.from.clone(),
                to_module: e.to.clone(),
                file: e.file.clone(),
                description: d,
            };
            out.push(v);
            assert(violation_views(out@) =~= o0.push(violation_view(v)));
            return;
        }
    }
    assert(o0 + Seq::<(Seq<char>, Seq<char>, Seq<char>, Seq<char>, Seq<char>, Seq<char>)>::empty() =~= o0);
}

/// The imports from an inner layer of an outer one.
fn detect_layer_violations(dependencies: &Vec<DependencyEdge>, ms: &Vec<ModuleInfo>) -> (r: Vec<LayerViolation>)
    ensures
        violation_views(r@) == layer_violations_of(ms@, edge_views(dependencies@)),
{
    let ghost ev = edge_views(dependencies@);
    let mut out: Vec<LayerViolation> = Vec::new();
    for i in 0..dependencies.len()
        invariant
            ev == edge_views(dependencies@),
            violation_views(out@) == layer_violations_of(ms@, ev.take(i as int)),
    {
        assert(ev.take(i + 1).drop_last() =~= ev.take(i as int));
        assert(ev.take(i + 1).last() == edge_view(dependencies@[i as int]));
        edge_violation_exec(ms, &dependencies[i], &mut out);
    }
    assert(ev.take(dependencies@.len() as int) =~= ev);
    out
}

/// What the graph of a project with these source files is.
pub open spec fn graph_of(fs: Seq<ModuleSource>, g: DependencyGraph) -> bool {
    &&& row_views(g.modules@) == module_table(fs)
    &&& forall|k: int| 0 <= k < g.modules@.len() ==> module_linked(#[trigger] g.modules@[k], all_edges(fs))
    &&& edge_views(g.dependencies@) == all_edges(fs)
    &&& g.total_modules == g.modules@.len()
    &&& g.total_dependencies == g.dependencies@.len()
    &&& g.has_circular_deps == (g.circular_deps@.len() > 0)
    &&& g.has_circular_deps == has_cycle(import_graph(g.modules@))
    &&& reported_cycles_ok(g.modules@, name_cycles(g.circular_deps@))
    &&& violation_views(g.layer_violations@) == layer_violations_of(g.modules@, all_edges(fs))
}

impl DependencyAnalyzer {
    /// The dependency graph of the project from its source files (`None`
    /// where it has no source directory, which is refused).
    pub fn analyze(&self, sources: Option<Vec<ModuleSource>>) -> (r: CellResult<DependencyGraph>)
        requires
            match sources {
                Some(fs) => total_lines(fs@) <= usize::MAX,
                None => true,
            },
        ensures
            match sources {
                None => r matches Err(CellError::NotFound(m)) && m@ == "src directory not found"@,
                Some(fs) => r matches Ok(g) && graph_of(fs@, g),
            },
    {
        let files = match sources {
            Some(fs) => fs,
            None => {
                return Err(CellError::NotFound(owned("src directory not found")));
            },
        };
        let (ms, es) = self.collect(&files);
        let modules = Self::link(ms, &es);
        proof {
            lemma_table_distinct(files@);
            let t = row_views(modules@);
            assert forall|i: int, j: int| 0 <= i < modules@.len() && 0 <= j < modules@.len() && i != j implies
                (#[trigger] modules@[i]).name@ != (#[trigger] modules@[j]).name@ by {
                assert(t[i].0 == modules@[i].name@ && t[j].0 == modules@[j].name@);
            }
        }
        let circular = find_cycles(&modules);
        let violations = detect_layer_violations(&es, &modules);
        let total_modules = modules.len();
        let total_dependencies = es.len();
        let cyclic = circular.len() > 0;
        Ok(DependencyGraph {
            modules,
            dependencies: es,
            total_modules,
            total_dependencies,
            has_circular_deps: cyclic,
            circular_deps: circular,
            layer_violations: violations,
        })
    }
}

/// Position of the entry for layer `l`, or `t.len()`.
pub open spec fn find_layer(t: Seq<(Seq<char>, nat)>, l: Seq<char>) -> int
    decreases t.len(),
{
    if t.len() == 0 {
        0
    } else if t[0].0 == l {
        0
    } else {
        1 + find_layer(t.drop_first(), l)
    }
}

pub open spec fn add_layer(t: Seq<(Seq<char>, nat)>, l: Seq<char>) -> Seq<(Seq<char>, nat)> {
    let k = find_layer(t, l);
    if k < t.len() {
        t.update(k, (t[k].0, t[k].1 + 1))
    } else {
        t.push((l, 1))
    }
}

/// The layers of the modules with the number of modules in each, in the
/// order they first appear.
pub open spec fn layer_counts(ms: Seq<ModuleInfo>) -> Seq<(Seq<char>, nat)>
    decreases ms.len(),
{
    if ms.len() == 0 {
        Seq::empty()
    } else {
        add_layer(layer_counts(ms.drop_last()), ms.last().layer@)
    }
}

/// `s` (indices in descending key order) with index `i` placed after every
/// index whose key is at least its own.
pub open spec fn ins_desc(keys: Seq<nat>, s: Seq<nat>, i: nat) -> Seq<nat>
    decreases s.len(),
{
    if s.len() == 0 {
        seq![i]
    } else if keys[s.last() as int] >= keys[i as int] {
        s.push(i)
    } else {
        ins_desc(keys, s.drop_last(), i).push(s.last())
    }
}

/// The first `n` indices ordered by descending key, equal keys in index order.
pub open spec fn order_desc(keys: Seq<nat>, n: nat) -> Seq<nat>
    decreases n,
{
    if n == 0 {
        Seq::empty()
    } else {
        ins_desc(keys, order_desc(keys, (n - 1) as nat), (n - 1) as nat)
    }
}

pub open spec fn nats(v: Seq<usize>) -> Seq<nat> {
    v.map_values(|x: usize| x as nat)
}

proof fn lemma_find_layer_at(t: Seq<(Seq<char>, nat)>, l: Seq<char>, m: int)
    requires
        0 <= m <= t.len(),
        forall|j: int| 0 <= j < m ==> (#[trigger] t[j]).0 != l,
        m == t.len() || t[m].0 == l,
    ensures
        find_layer(t, l) == m,
    decreases m,
{
    if m > 0 {
        assert forall|j: int| 0 <= j < m - 1 implies (#[trigger] t.drop_first()[j]).0 != l by {
            assert(t.drop_first()[j] == t[j + 1]);
        }
        if m < t.len() {
            assert(t.drop_first()[m - 1] == t[m]);
        }
        lemma_find_layer_at(t.drop_first(), l, m - 1);
    }
}

pub open spec fn count_views(v: Seq<(String, usize)>) -> Seq<(Seq<char>, nat)> {
    v.map_values(|p: (String, usize)| (p.0@, p.1 as nat))
}

/// The layers of the modules with their module counts.
fn count_layers(ms: &Vec<ModuleInfo>) -> (r: Vec<(String, usize)>)
    ensures
        count_views(r@) == layer_counts(ms@),
        forall|k: int| 0 <= k < r@.len() ==> (#[trigger] r@[k]).1 <= ms@.len(),
{
    let mut out: Vec<(String, usize)> = Vec::new();
    let n = ms.len();
    for i in 0..n
        invariant
            n == ms@.len(),
            count_views(out@) == layer_counts(ms@.take(i as int)),
            forall|k: int| 0 <= k < out@.len() ==> (#[trigger] out@[k]).1 <= i,
    {
        assert(ms@.take(i + 1).drop_last() =~= ms@.take(i as int));
        let l = &ms[i].layer;
        let ghost t = count_views(out@);
        let mut k: usize = 0;
        while k < out.len()
            invariant
                k <= out@.len(),
                t == count_views(out@),
                forall|j: int| 0 <= j < k ==> (#[trigger] t[j]).0 != l@,
            ensures
                k <= out@.len(),
                forall|j: int| 0 <= j < k ==> (#[trigger] t[j]).0 != l@,
                k < out@.len() ==> t[k as int].0 == l@,
            decreases out@.len() - k,
        {
            assert(t[k as int] == (out@[k as int].0@, out@[k as int].1 as nat));
            if str_eq(out[k].0.as_str(), l.as_str()) {
                break;
            }
            k = k + 1;
        }
        proof {
            if k < out@.len() {
                assert(t[k as int].0 == l@);
            }
            lemma_find_layer_at(t, l@, k as int);
        }
        if k < out.len() {
            let (name, c) = out.remove(k);
            out.insert(k, (name, c + 1));
            assert(count_views(out@) =~= t.update(k as int, (t[k as int].0, t[k as int].1 + 1)));
        } else {
            out.push((l.clone(), 1));
            assert(count_views(out@) =~= t.push((l@, 1)));
        }
    }
    assert(ms@.take(n as int) =~= ms@);
    out
}

/// Indices of `keys` ordered by descending key, equal keys in index order.
fn order_by_desc(keys: &Vec<usize>) -> (r: Vec<usize>)
    ensures
        nats(r@) == order_desc(nats(keys@), keys@.len() as nat),
        forall|k: int| 0 <= k < r@.len() ==> (#[trigger] r@[k]) < keys@.len(),
{
    let ghost kv = nats(keys@);
    let mut out: Vec<usize> = Vec::new();
    let n = keys.len();
    for i in 0..n
        invariant
            n == keys@.len(),
            kv == nats(keys@),
            nats(out@) == order_desc(kv, i as nat),
            forall|k: int| 0 <= k < out@.len() ==> (#[trigger] out@[k]) < i,
    {
        let ghost s = nats(out@);
        let mut p = out.len();
        assert(s.take(p as int) =~= s);
        assert(s.skip(p as int) =~= Seq::<nat>::empty());
        assert(ins_desc(kv, s, i as nat) + Seq::<nat>::empty() =~= ins_desc(kv, s, i as nat));
        while p > 0 && keys[out[p - 1]] < keys[i]
            invariant
                n == keys@.len(),
                p <= out@.len(),
                s == nats(out@),
                kv == nats(keys@),
                i < n,
                forall|k: int| 0 <= k < out@.len() ==> (#[trigger] out@[k]) < i,
                ins_desc(kv, s, i as nat) == ins_desc(kv, s.take(p as int), i as nat) + s.skip(p as int),
            decreases p,
        {
            let ghost t = s.take(p as int);
            assert(t.last() == out@[p - 1] as nat);
            assert(kv[out@[p - 1] as int] == keys@[out@[p - 1] as int] as nat);
            assert(kv[i as int] == keys@[i as int] as nat);
            assert(t.drop_last() =~= s.take(p - 1));
            assert(ins_desc(kv, t, i as nat) == ins_desc(kv, s.take(p - 1), i as nat).push(t.last()));
            assert(s.skip(p - 1) =~= seq![t.last()] + s.skip(p as int));
            assert(ins_desc(kv, s.take(p - 1), i as nat).push(t.last()) + s.skip(p as int)
                =~= ins_desc(kv, s.take(p - 1), i as nat) + s.skip(p - 1));
            p = p - 1;
        }
        proof {
            let t = s.take(p as int);
            if p > 0 {
                assert(t.last() == out@[p - 1] as nat);
                assert(kv[out@[p - 1] as int] == keys@[out@[p - 1] as int] as nat);
                assert(kv[i as int] == keys@[i as int] as nat);
                assert(ins_desc(kv, t, i as nat) == t.push(i as nat));
            } else {
                assert(ins_desc(kv, t, i as nat) == seq![i as nat]);
            }
        }
        let ghost before = out@;
        out.insert(p, i);
        proof {
            assert(nats(out@) =~= s.take(p as int).push(i as nat) + s.skip(p as int));
            assert forall|k: int| 0 <= k < out@.len() implies (#[trigger] out@[k]) < i + 1 by {
                if k < p {
                    assert(out@[k] == before[k]);
                } else if k > p {
                    assert(out@[k] == before[k - 1]);
                }
            }
        }
    }
    out
}

pub open spec fn layer_count_keys(t: Seq<(Seq<char>, nat)>) -> Seq<nat> {
    t.map_values(|p: (Seq<char>, nat)| p.1)
}

pub open spec fn loc_keys(ms: Seq<ModuleInfo>) -> Seq<nat> {
    ms.map_values(|m: ModuleInfo| m.lines_of_code as nat)
}

/// The layer distribution lines, in the given order of entries.
pub open spec fn layer_lines(t: Seq<(Seq<char>, nat)>, order: Seq<nat>) -> Seq<char>
    decreases order.len(),
{
    if order.len() == 0 {
        Seq::empty()
    } else {
        let e = t[order.last() as int];
        layer_lines(t, order.drop_last()) + "- **"@ + e.0 + "**: "@ + decimal(e.1) + " 个模块\n"@
    }
}

pub open spec fn violation_lines(vs: Seq<LayerViolation>) -> Seq<char>
    decreases vs.len(),
{
    if vs.len() == 0 {
        Seq::empty()
    } else {
        let v = vs.last();
        violation_lines(vs.drop_last()) + "- "@ + v.from_layer@ + " → "@ + v.to_layer@ + ": "@ + v.description@ + "\n"@
    }
}

pub open spec fn violations_text(vs: Seq<LayerViolation>) -> Seq<char> {
    if vs.len() == 0 {
        Seq::empty()
    } else {
        "\n## ⚠️  "@ + decimal(vs.len()) + " 个层依赖违规\n\n"@ + violation_lines(vs)
    }
}

pub open spec fn cycle_lines(cs: Seq<Seq<Seq<char>>>) -> Seq<char>
    decreases cs.len(),
{
    if cs.len() == 0 {
        Seq::empty()
    } else {
        cycle_lines(cs.drop_last()) + "  - "@ + join(cs.last(), " → "@) + "\n"@
    }
}

pub open spec fn cycles_text(flagged: bool, cs: Seq<Seq<Seq<char>>>) -> Seq<char> {
    if flagged {
        "\n## 🔴 "@ + decimal(cs.len()) + " 个循环依赖\n\n"@ + cycle_lines(cs)
    } else {
        Seq::empty()
    }
}

pub open spec fn stats_row(m: ModuleInfo) -> Seq<char> {
    "| "@ + m.name@ + " | "@ + m.layer@ + " | "@ + decimal(m.incoming_deps as nat) + " | "@ + decimal(m.outgoing_deps as nat)
        + " | "@ + decimal(m.lines_of_code as nat) + " |\n"@
}

/// The statistics rows of the modules at the given positions.
pub open spec fn stats_rows(ms: Seq<ModuleInfo>, order: Seq<nat>) -> Seq<char>
    decreases order.len(),
{
    if order.len() == 0 {
        Seq::empty()
    } else {
        stats_rows(ms, order.drop_last()) + stats_row(ms[order.last() as int])
    }
}

pub open spec fn first_n(s: Seq<nat>, n: nat) -> Seq<nat> {
    if s.len() > n { s.take(n as int) } else { s }
}

/// The Markdown summary of a graph: totals, the modules per layer (most
/// first), violations, cycles, and the fifteen largest modules.
pub open spec fn summary_text(g: DependencyGraph) -> Seq<char> {
    let lc = layer_counts(g.modules@);
    "\n📊 依赖分析报告\n\n"@ + "## 概览\n\n"@ + "| 指标 | 值 |\n"@ + "|------|-----|\n"@
        + "| 模块数 | "@ + decimal(g.total_modules as nat) + " |\n"@
        + "| 依赖关系数 | "@ + decimal(g.total_dependencies as nat) + " |\n"@
        + "\n## 各层模块分布\n\n"@ + layer_lines(lc, order_desc(layer_count_keys(lc), lc.len()))
        + violations_text(g.layer_violations@)
        + cycles_text(g.has_circular_deps, name_cycles(g.circular_deps@))
        + "\n## 模块依赖统计\n\n"@ + "| 模块 | 层级 | 入度 | 出度 | 代码行数 |\n"@ + "|------|------|------|------|----------|\n"@
        + stats_rows(g.modules@, first_n(order_desc(loc_keys(g.modules@), g.modules@.len()), 15))
}

fn push_summary_head(o: &mut String, g: &DependencyGraph)
    ensures
        final(o)@ == old(o)@ + "\n📊 依赖分析报告\n\n"@ + "## 概览\n\n"@ + "| 指标 | 值 |\n"@ + "|------|-----|\n"@
            + "| 模块数 | "@ + decimal(g.total_modules as nat) + " |\n"@
            + "| 依赖关系数 | "@ + decimal(g.total_dependencies as nat) + " |\n"@,
{
    let ghost o0 = o@;
    push_str(o, "\n📊 依赖分析报告\n\n");
    push_str(o, "## 概览\n\n");
    push_str(o, "| 指标 | 值 |\n");
    push_str(o, "|------|-----|\n");
    push_str(o, "| 模块数 | ");
    push_decimal(o, g.total_modules);
    push_str(o, " |\n");
    push_str(o, "| 依赖关系数 | ");
    push_decimal(o, g.total_dependencies);
    push_str(o, " |\n");
    assert(o@ =~= o0 + "\n📊 依赖分析报告\n\n"@ + "## 概览\n\n"@ + "| 指标 | 值 |\n"@ + "|------|-----|\n"@
        + "| 模块数 | "@ + decimal(g.total_modules as nat) + " |\n"@
        + "| 依赖关系数 | "@ + decimal(g.total_dependencies as nat) + " |\n"@);
}

fn push_layer_lines(o: &mut String, ms: &Vec<ModuleInfo>)
    ensures
        final(o)@ == old(o)@ + layer_lines(layer_counts(ms@), order_desc(layer_count_keys(layer_counts(ms@)), layer_counts(ms@).len())),
{
    let counts = count_layers(ms);
    let ghost lc = count_views(counts@);
    let mut keys: Vec<usize> = Vec::new();
    for i in 0..counts.len()
        invariant
            lc == count_views(counts@),
            nats(keys@) == layer_count_keys(lc.take(i as int)),
    {
        let ghost before = keys@;
        keys.push(counts[i].1);
        assert(nats(keys@) =~= nats(before).push(counts@[i as int].1 as nat));
        assert(lc[i as int] == (counts@[i as int].0@, counts@[i as int].1 as nat));
        assert(layer_count_keys(lc.take(i + 1)) =~= layer_count_keys(lc.take(i as int)).push(lc[i as int].1));
    }
    assert(lc.take(counts@.len() as int) =~= lc);
    let order = order_by_desc(&keys);
    let ghost ov = nats(order@);
    let ghost o0 = o@;
    for k in 0..order.len()
        invariant
            lc == count_views(counts@),
            ov == nats(order@),
            keys@.len() == counts@.len(),
            forall|q: int| 0 <= q < order@.len() ==> (#[trigger] order@[q]) < keys@.len(),
            o@ == o0 + layer_lines(lc, ov.take(k as int)),
    {
        assert(ov.take(k + 1).drop_last() =~= ov.take(k as int));
        assert(ov.take(k + 1).last() == order@[k as int] as nat);
        let e = &counts[order[k]];
        assert(lc[order@[k as int] as int] == (e.0@, e.1 as nat));
        push_str(o, "- **");
        push_str(o, e.0.as_str());
        push_str(o, "**: ");
        push_decimal(o, e.1);
        push_str(o, " 个模块\n");
        assert(o@ =~= o0 + layer_lines(lc, ov.take(k + 1)));
    }
    assert(ov.take(order@.len() as int) =~= ov);
}

fn push_violations(o: &mut String, vs: &Vec<LayerViolation>)
    ensures
        final(o)@ == old(o)@ + violations_text(vs@),
{
    if vs.len() == 0 {
        assert(old(o)@ + violations_text(vs@) =~= old(o)@);
        return;
    }
    let ghost o0 = o@;
    push_str(o, "\n## ⚠️  ");
    push_decimal(o, vs.len());
    push_str(o, " 个层依赖违规\n\n");
    let ghost o1 = o@;
    for i in 0..vs.len()
        invariant
            o@ == o1 + violation_lines(vs@.take(i as int)),
    {
        assert(vs@.take(i + 1).drop_last() =~= vs@.take(i as int));
        let v = &vs[i];
        push_str(o, "- ");
        push_str(o, v.from_layer.as_str());
        push_str(o, " → ");
        push_str(o, v.to_layer.as_str());
        push_str(o, ": ");
        push_str(o, v.description.as_str());
        push_str(o, "\n");
        assert(o@ =~= o1 + violation_lines(vs@.take(i + 1)));
    }
    assert(vs@.take(vs@.len() as int) =~= vs@);
    assert(o@ =~= o0 + violations_text(vs@));
}

fn push_cycles(o: &mut String, flagged: bool, cs: &Vec<Vec<String>>)
    ensures
        final(o)@ == old(o)@ + cycles_text(flagged, name_cycles(cs@)),
{
    let ghost nc = name_cycles(cs@);
    if !flagged {
        assert(old(o)@ + cycles_text(flagged, nc) =~= old(o)@);
        return;
    }
    let ghost o0 = o@;
    push_str(o, "\n## 🔴 ");
    push_decimal(o, cs.len());
    push_str(o, " 个循环依赖\n\n");
    let ghost o1 = o@;
    for i in 0..cs.len()
        invariant
            nc == name_cycles(cs@),
            o@ == o1 + cycle_lines(nc.take(i as int)),
    {
        assert(nc.take(i + 1).drop_last() =~= nc.take(i as int));
        assert(nc.take(i + 1).last() == string_views(cs@[i as int]@));
        push_str(o, "  - ");
        push_join(o, &cs[i], " → ");
        assert(cs@[i as int]@.map_values(|x: String| x@) == string_views(cs@[i as int]@));
        push_str(o, "\n");
        assert(o@ =~= o1 + cycle_lines(nc.take(i + 1)));
    }
    assert(nc.take(cs@.len() as int) =~= nc);
    assert(o@ =~= o0 + cycles_text(flagged, nc));
}

fn push_stats_row(o: &mut String, m: &ModuleInfo)
    ensures
        final(o)@ == old(o)@ + stats_row(*m),
{
    let ghost o0 = o@;
    push_str(o, "| ");
    push_str(o, m.name.as_str());
    push_str(o, " | ");
    push_str(o, m.layer.as_str());
    push_str(o, " | ");
    push_decimal(o, m.incoming_deps);
    push_str(o, " | ");
    push_decimal(o, m.outgoing_deps);
    push_str(o, " | ");
    push_decimal(o, m.lines_of_code);
    push_str(o, " |\n");
    assert(o@ =~= o0 + stats_row(*m));
}

fn push_stats(o: &mut String, ms: &Vec<ModuleInfo>)
    ensures
        final(o)@ == old(o)@ + stats_rows(ms@, first_n(order_desc(loc_keys(ms@), ms@.len()), 15)),
{
    let mut keys: Vec<usize> = Vec::new();
    for i in 0..ms.len()
        invariant
            nats(keys@) == loc_keys(ms@.take(i as int)),
    {
        let ghost before = keys@;
        keys.push(ms[i].lines_of_code);
        assert(nats(keys@) =~= nats(before).push(ms@[i as int].lines_of_code as nat));
        assert(loc_keys(ms@.take(i + 1)) =~= loc_keys(ms@.take(i as int)).push(ms@[i as int].lines_of_code as nat));
    }
    assert(ms@.take(ms@.len() as int) =~= ms@);
    let order = order_by_desc(&keys);
    let ghost ov = nats(order@);
    let lim = if order.len() > 15 { 15 } else { order.len() };
    let ghost o0 = o@;
    for k in 0..lim
        invariant
            ov == nats(order@),
            lim <= order@.len(),
            keys@.len() == ms@.len(),
            forall|q: int| 0 <= q < order@.len() ==> (#[trigger] order@[q]) < keys@.len(),
            o@ == o0 + stats_rows(ms@, ov.take(k as int)),
    {
        assert(ov.take(k + 1).drop_last() =~= ov.take(k as int));
        assert(ov.take(k + 1).last() == order@[k as int] as nat);
        push_stats_row(o, &ms[order[k]]);
        assert(o@ =~= o0 + stats_rows(ms@, ov.take(k + 1)));
    }
    assert(first_n(ov, 15) =~= ov.take(lim as int));
}

impl DependencyAnalyzer {
    /// The Markdown summary of a graph.
    pub fn format_summary(&self, graph: &DependencyGraph) -> (r: String)
        ensures
            r@ == summary_text(*graph),
    {
        let mut o = String::new();
        push_summary_head(&mut o, graph);
        push_str(&mut o, "\n## 各层模块分布\n\n");
        push_layer_lines(&mut o, &graph.modules);
        push_violations(&mut o, &graph.layer_violations);
        push_cycles(&mut o, graph.has_circular_deps, &graph.circular_deps);
        push_str(&mut o, "\n## 模块依赖统计\n\n");
        push_str(&mut o, "| 模块 | 层级 | 入度 | 出度 | 代码行数 |\n");
        push_str(&mut o, "|------|------|------|------|----------|\n");
        push_stats(&mut o, &graph.modules);
        o
    }
}

/// The node lines of the modules of one layer.
pub open spec fn mermaid_nodes(ms: Seq<ModuleInfo>, layer: Seq<char>) -> Seq<char>
    decreases ms.len(),
{
    if ms.len() == 0 {
        Seq::empty()
    } else {
        mermaid_nodes(ms.drop_last(), layer) + if ms.last().layer@ == layer {
            "    "@ + ms.last().name@ + "[\""@ + ms.last().name@ + "\"]\n"@
        } else {
            Seq::empty()
        }
    }
}

pub open spec fn mermaid_edges(es: Seq<DependencyEdge>) -> Seq<char>
    decreases es.len(),
{
    if es.len() == 0 {
        Seq::empty()
    } else {
        let e = es.last();
        mermaid_edges(es.drop_last()) + "  "@ + e.from@ + (if e.is_cross_layer { " -.-> "@ } else { " --> "@ }) + e.to@ + "\n"@
    }
}

pub open spec fn subgraph(title: Seq<char>, ms: Seq<ModuleInfo>, layer: Seq<char>) -> Seq<char> {
    "  subgraph "@ + title + "\n"@ + mermaid_nodes(ms, layer) + "  end\n\n"@
}

/// The Mermaid diagram of a graph: one subgraph per layer, then the imports
/// (dotted across layers).
pub open spec fn mermaid_text(g: DependencyGraph) -> Seq<char> {
    "```mermaid\ngraph TD\n\n"@ + subgraph("领域层"@, g.modules@, "domain"@) + subgraph("应用层"@, g.modules@, "application"@)
        + subgraph("适配器层"@, g.modules@, "adapters"@) + subgraph("接口层"@, g.modules@, "interfaces"@)
        + mermaid_edges(g.dependencies@) + "```\n"@
}

fn push_subgraph(o: &mut String, title: &str, ms: &Vec<ModuleInfo>, layer: &str)
    ensures
        final(o)@ == old(o)@ + subgraph(title@, ms@, layer@),
{
    let ghost o0 = o@;
    push_str(o, "  subgraph ");
    push_str(o, title);
    push_str(o, "\n");
    let ghost o1 = o@;
    for i in 0..ms.len()
        invariant
            o@ == o1 + mermaid_nodes(ms@.take(i as int), layer@),
    {
        assert(ms@.take(i + 1).drop_last() =~= ms@.take(i as int));
        if str_eq(ms[i].layer.as_str(), layer) {
            push_str(o, "    ");
            push_str(o, ms[i].name.as_str());
            push_str(o, "[\"");
            push_str(o, ms[i].name.as_str());
            push_str(o, "\"]\n");
        }
        assert(o@ =~= o1 + mermaid_nodes(ms@.take(i + 1), layer@));
    }
    assert(ms@.take(ms@.len() as int) =~= ms@);
    push_str(o, "  end\n\n");
    assert(o@ =~= o0 + subgraph(title@, ms@, layer@));
}

impl DependencyAnalyzer {
    /// The Mermaid diagram of a graph.
    pub fn generate_mermaid(&self, graph: &DependencyGraph) -> (r: String)
        ensures
            r@ == mermaid_text(*graph),
    {
        let mut o = owned("```mermaid\ngraph TD\n\n");
        push_subgraph(&mut o, "领域层", &graph.modules, "domain");
        push_subgraph(&mut o, "应用层", &graph.modules, "application");
        push_subgraph(&mut o, "适配器层", &graph.modules, "adapters");
        push_subgraph(&mut o, "接口层", &graph.modules, "interfaces");
        let ghost o1 = o@;
        let es = &graph.dependencies;
        for i in 0..es.len()
            invariant
                o@ == o1 + mermaid_edges(es@.take(i as int)),
        {
            assert(es@.take(i + 1).drop_last() =~= es@.take(i as int));
            push_str(&mut o, "  ");
            push_str(&mut o, es[i].from.as_str());
            push_str(&mut o, if es[i].is_cross_layer { " -.-> " } else { " --> " });
            push_str(&mut o, es[i].to.as_str());
            push_str(&mut o, "\n");
            assert(o@ =~= o1 + mermaid_edges(es@.take(i + 1)));
        }
        assert(es@.take(es@.len() as int) =~= es@);
        push_str(&mut o, "```\n");
        o
    }
}

} // verus!
