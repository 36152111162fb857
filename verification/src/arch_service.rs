//! Layer-dependency validation of a project against architecture rules.
use vstd::prelude::*;
use crate::text::{
    starts_with, replace_all, replace_all_exec, to_chars, begins, chars_eq, owned, push_str, push_chars, trim,
    trim_chars, lines, views, split_lines, before_first, before_first_exec, trim_start_matches,
    trim_start_matches_exec, trim_end_matches, trim_end_matches_exec, replace_char, replace_char_in, ends_with,
    finishes, str_eq,
};

verus! {

/// A layer of the architecture and the source directory it lives in.
#[derive(Debug, Clone)]
pub struct LayerRule {
    pub name: String,
    pub path_pattern: String,
    pub description: String,
}

/// Which way dependencies between layers may point.
#[derive(Debug, Clone, Copy, PartialEq, Eq, Structural)]
pub enum DependencyDirection {
    InwardOnly,
    OutwardOnly,
}

/// A forbidden dependency from one layer to another.
#[derive(Debug, Clone)]
pub struct BannedDependency {
    pub from: String,
    pub to: String,
    pub reason: String,
}

/// The rules a project's layering is checked against.
#[derive(Debug, Clone)]
pub struct ArchitectureRules {
    pub layers: Vec<LayerRule>,
    pub dependency_direction: DependencyDirection,
    pub banned_dependencies: Vec<BannedDependency>,
}

/// How serious a violation is.
#[derive(Debug, Clone, Copy, PartialEq, Eq, Structural)]
pub enum Severity {
    Error,
    Warning,
    Info,
}

/// A dependency that breaks a rule.
#[derive(Debug, Clone)]
pub struct Violation {
    pub rule: String,
    pub from_module: String,
    pub to_module: String,
    pub file: String,
    pub line: usize,
    pub severity: Severity,
    pub message: String,
}

/// Dependency counts of one layer.
#[derive(Debug, Clone, Copy, PartialEq, Eq, Structural)]
pub struct LayerStats {
    pub file_count: usize,
    pub internal_deps: usize,
    pub external_deps: usize,
    pub violations: usize,
}

impl LayerStats {
    pub open spec fn default_value() -> LayerStats {
        LayerStats { file_count: 0, internal_deps: 0, external_deps: 0, violations: 0 }
    }
}

impl Default for LayerStats {
    fn default() -> (r: Self)
        ensures
            r == (LayerStats { file_count: 0, internal_deps: 0, external_deps: 0, violations: 0 }),
    {
        LayerStats { file_count: 0, internal_deps: 0, external_deps: 0, violations: 0 }
    }
}

/// The outcome of a validation.
#[derive(Debug, Clone)]
pub struct ValidationResult {
    pub passed: bool,
    pub violations: Vec<Violation>,
    /// (layer name, counts) for each layer of the rules, in their order.
    pub layer_stats: Vec<(String, LayerStats)>,
}

impl ValidationResult {
    /// The counts of the layer named `name`.
    pub fn stats_of(&self, name: &str) -> (r: Option<LayerStats>)
        ensures
            r == stats_lookup(stats_view(self.layer_stats@), name@),
    {
        let n = self.layer_stats.len();
        let ghost sv = stats_view(self.layer_stats@);
        assert(sv.skip(0) =~= sv);
        for i in 0..n
            invariant
                n == self.layer_stats@.len(),
                sv == stats_view(self.layer_stats@),
                stats_lookup(sv, name@) == stats_lookup(sv.skip(i as int), name@),
        {
            assert(sv.skip(i as int).drop_first() =~= sv.skip(i + 1));
            if str_eq(self.layer_stats[i].0.as_str(), name) {
                return Some(self.layer_stats[i].1);
            }
        }
        None
    }
}

/// Where one module imports another: the importing file and the line.
#[derive(Debug, Clone)]
pub struct DepInfo {
    pub file: String,
    pub line: usize,
}

/// A module of the project and the modules it imports.
#[derive(Debug, Clone)]
pub struct ModuleDeps {
    pub module: String,
    pub deps: Vec<(String, DepInfo)>,
}

// ----------------------------------------------------------------------------
// Views and specifications
// ----------------------------------------------------------------------------

pub struct DepView {
    pub path: Seq<char>,
    pub file: Seq<char>,
    pub line: nat,
}

pub struct ModuleView {
    pub module: Seq<char>,
    pub deps: Seq<DepView>,
}

pub open spec fn dep_views(ds: Seq<(String, DepInfo)>) -> Seq<DepView> {
    ds.map_values(|d: (String, DepInfo)| DepView { path: d.0@, file: d.1.file@, line: d.1.line as nat })
}

pub open spec fn module_views(ms: Seq<ModuleDeps>) -> Seq<ModuleView> {
    ms.map_values(|m: ModuleDeps| ModuleView { module: m.module@, deps: dep_views(m.deps@) })
}

pub open spec fn layer_views(ls: Seq<LayerRule>) -> Seq<(Seq<char>, Seq<char>)> {
    ls.map_values(|l: LayerRule| (l.name@, l.path_pattern@))
}

pub open spec fn banned_views(bs: Seq<BannedDependency>) -> Seq<(Seq<char>, Seq<char>, Seq<char>)> {
    bs.map_values(|b: BannedDependency| (b.from@, b.to@, b.reason@))
}

pub struct ViolationView {
    pub rule: Seq<char>,
    pub from_module: Seq<char>,
    pub to_module: Seq<char>,
    pub file: Seq<char>,
    pub line: nat,
    pub severity: Severity,
    pub message: Seq<char>,
}

pub open spec fn violation_views(vs: Seq<Violation>) -> Seq<ViolationView> {
    vs.map_values(|v: Violation| ViolationView {
        rule: v.rule@, from_module: v.from_module@, to_module: v.to_module@, file: v.file@,
        line: v.line as nat, severity: v.severity, message: v.message@,
    })
}

pub open spec fn stats_view(s: Seq<(String, LayerStats)>) -> Seq<(Seq<char>, LayerStats)> {
    s.map_values(|p: (String, LayerStats)| (p.0@, p.1))
}

/// The counts recorded under `name`, if any.
pub open spec fn stats_lookup(s: Seq<(Seq<char>, LayerStats)>, name: Seq<char>) -> Option<LayerStats>
    decreases s.len(),
{
    if s.len() == 0 {
        None
    } else if s[0].0 == name {
        Some(s[0].1)
    } else {
        stats_lookup(s.drop_first(), name)
    }
}

/// A module path lies in the layer whose source directory is `pattern`.
pub open spec fn matches_layer(module: Seq<char>, pattern: Seq<char>) -> bool {
    let pat = replace_all(pattern, "src/"@, Seq::empty());
    starts_with(module, pat + "::"@) || module == pat || starts_with(module, "crate::"@ + pat + "::"@)
}

/// The name of the first layer whose directory holds `module`.
pub open spec fn layer_of(module: Seq<char>, layers: Seq<(Seq<char>, Seq<char>)>) -> Option<Seq<char>>
    decreases layers.len(),
{
    if layers.len() == 0 {
        None
    } else if matches_layer(module, layers[0].1) {
        Some(layers[0].0)
    } else {
        layer_of(module, layers.drop_first())
    }
}

/// Violations of one dependency from layer `fl` to layer `tl`: one per banned pair that matches.
pub open spec fn dep_violations(module: Seq<char>, d: DepView, fl: Seq<char>, tl: Seq<char>,
    banned: Seq<(Seq<char>, Seq<char>, Seq<char>)>) -> Seq<ViolationView>
    decreases banned.len(),
{
    if banned.len() == 0 {
        Seq::empty()
    } else {
        let rest = dep_violations(module, d, fl, tl, banned.drop_last());
        let b = banned.last();
        if b.0 == fl && b.1 == tl {
            rest.push(ViolationView {
                rule: "layer_dependency"@,
                from_module: module,
                to_module: d.path,
                file: d.file,
                line: d.line,
                severity: Severity::Error,
                message: fl + " → "@ + tl + ": "@ + b.2,
            })
        } else {
            rest
        }
    }
}

/// Violations of the first `n` dependencies of module `m`.
pub open spec fn module_violations(m: ModuleView, n: nat, layers: Seq<(Seq<char>, Seq<char>)>,
    banned: Seq<(Seq<char>, Seq<char>, Seq<char>)>) -> Seq<ViolationView>
    decreases n,
{
    if n == 0 || n > m.deps.len() {
        Seq::empty()
    } else {
        let rest = module_violations(m, (n - 1) as nat, layers, banned);
        let d = m.deps[n - 1];
        match (layer_of(m.module, layers), layer_of(d.path, layers)) {
            (Some(fl), Some(tl)) => rest + dep_violations(m.module, d, fl, tl, banned),
            _ => rest,
        }
    }
}

/// Violations of all modules, in order.
pub open spec fn all_violations(ms: Seq<ModuleView>, layers: Seq<(Seq<char>, Seq<char>)>,
    banned: Seq<(Seq<char>, Seq<char>, Seq<char>)>) -> Seq<ViolationView>
    decreases ms.len(),
{
    if ms.len() == 0 {
        Seq::empty()
    } else {
        all_violations(ms.drop_last(), layers, banned) + module_violations(ms.last(), ms.last().deps.len(), layers, banned)
    }
}

/// Counts as mathematical integers.
pub struct StatsSpec {
    pub file_count: nat,
    pub internal_deps: nat,
    pub external_deps: nat,
    pub violations: nat,
}

pub open spec fn zero_stats() -> StatsSpec {
    StatsSpec { file_count: 0, internal_deps: 0, external_deps: 0, violations: 0 }
}

pub open spec fn add_stats(a: StatsSpec, b: StatsSpec) -> StatsSpec {
    StatsSpec {
        file_count: a.file_count + b.file_count,
        internal_deps: a.internal_deps + b.internal_deps,
        external_deps: a.external_deps + b.external_deps,
        violations: a.violations + b.violations,
    }
}

/// What the first `n` dependencies of `m` add to the counts of layer `name`.
pub open spec fn module_dep_stats(name: Seq<char>, m: ModuleView, n: nat, layers: Seq<(Seq<char>, Seq<char>)>,
    banned: Seq<(Seq<char>, Seq<char>, Seq<char>)>) -> StatsSpec
    decreases n,
{
    if n == 0 || n > m.deps.len() {
        zero_stats()
    } else {
        let rest = module_dep_stats(name, m, (n - 1) as nat, layers, banned);
        let d = m.deps[n - 1];
        match (layer_of(m.module, layers), layer_of(d.path, layers)) {
            (Some(fl), Some(tl)) => if fl == name {
                add_stats(rest, StatsSpec {
                    file_count: 0,
                    internal_deps: if fl == tl { 1 } else { 0 },
                    external_deps: if fl == tl { 0 } else { 1 },
                    violations: dep_violations(m.module, d, fl, tl, banned).len(),
                })
            } else {
                rest
            },
            _ => rest,
        }
    }
}

/// What module `m` adds to the counts of layer `name`.
pub open spec fn module_own_stats(name: Seq<char>, m: ModuleView, layers: Seq<(Seq<char>, Seq<char>)>,
    banned: Seq<(Seq<char>, Seq<char>, Seq<char>)>) -> StatsSpec {
    if layer_of(m.module, layers) == Some(name) {
        add_stats(StatsSpec { file_count: 1, internal_deps: 0, external_deps: 0, violations: 0 },
            module_dep_stats(name, m, m.deps.len(), layers, banned))
    } else {
        zero_stats()
    }
}

/// The counts of layer `name` over the modules `ms`.
pub open spec fn layer_stats_spec(name: Seq<char>, ms: Seq<ModuleView>, layers: Seq<(Seq<char>, Seq<char>)>,
    banned: Seq<(Seq<char>, Seq<char>, Seq<char>)>) -> StatsSpec
    decreases ms.len(),
{
    if ms.len() == 0 {
        zero_stats()
    } else {
        add_stats(layer_stats_spec(name, ms.drop_last(), layers, banned), module_own_stats(name, ms.last(), layers, banned))
    }
}

pub open spec fn stats_eq(s: LayerStats, t: StatsSpec) -> bool {
    s.file_count as nat == t.file_count && s.internal_deps as nat == t.internal_deps
        && s.external_deps as nat == t.external_deps && s.violations as nat == t.violations
}

/// The layer names of `layers`, each once, in order of first appearance.
pub open spec fn unique_names(layers: Seq<(Seq<char>, Seq<char>)>) -> Seq<Seq<char>>
    decreases layers.len(),
{
    if layers.len() == 0 {
        Seq::empty()
    } else {
        let rest = unique_names(layers.drop_last());
        if rest.contains(layers.last().0) { rest } else { rest.push(layers.last().0) }
    }
}

/// Total number of dependencies of the modules.
pub open spec fn total_deps(ms: Seq<ModuleView>) -> nat
    decreases ms.len(),
{
    if ms.len() == 0 {
        0
    } else {
        total_deps(ms.drop_last()) + ms.last().deps.len()
    }
}

pub proof fn lemma_layer_of_in_layers(module: Seq<char>, layers: Seq<(Seq<char>, Seq<char>)>)
    ensures
        layer_of(module, layers) matches Some(n) ==> exists|k: int| 0 <= k < layers.len() && layers[k].0 == n,
    decreases layers.len(),
{
    if layers.len() > 0 && !matches_layer(module, layers[0].1) {
        lemma_layer_of_in_layers(module, layers.drop_first());
        if let Some(n) = layer_of(module, layers) {
            let k = choose|k: int| 0 <= k < layers.drop_first().len() && layers.drop_first()[k].0 == n;
            assert(layers[k + 1].0 == n);
        }
    } else if layers.len() > 0 {
        assert(layers[0].0 == layers[0].0);
    }
}

pub proof fn lemma_unique_names(layers: Seq<(Seq<char>, Seq<char>)>)
    ensures
        forall|k: int| 0 <= k < layers.len() ==> unique_names(layers).contains(#[trigger] layers[k].0),
        unique_names(layers).no_duplicates(),
    decreases layers.len(),
{
    if layers.len() > 0 {
        lemma_unique_names(layers.drop_last());
        let rest = unique_names(layers.drop_last());
        assert forall|k: int| 0 <= k < layers.len() implies unique_names(layers).contains(#[trigger] layers[k].0) by {
            if k < layers.len() - 1 {
                assert(layers.drop_last()[k] == layers[k]);
                assert(rest.contains(layers.drop_last()[k].0));
                if !rest.contains(layers.last().0) {
                    let j = choose|j: int| 0 <= j < rest.len() && rest[j] == layers[k].0;
                    assert(rest.push(layers.last().0)[j] == layers[k].0);
                }
            } else {
                if !rest.contains(layers.last().0) {
                    assert(rest.push(layers.last().0)[rest.len() as int] == layers.last().0);
                }
            }
        }
    }
}

fn layer_matches_exec(module: &[char], pattern: &str) -> (r: bool)
    ensures
        r == matches_layer(module@, pattern@),
{
    let pc = to_chars(pattern);
    let pat = replace_all_exec(pc.as_slice(), "src/", "");
    proof {
        assert(""@ =~= Seq::<char>::empty()) by {
            reveal_strlit("");
        }
    }
    let mut with_sep = pat.clone();
    with_sep.push(':');
    with_sep.push(':');
    let mut crate_form: Vec<char> = to_chars("crate::");
    let mut q: usize = 0;
    let ghost c0 = crate_form@;
    while q < with_sep.len()
        invariant
            q <= with_sep@.len(),
            crate_form@ == c0 + with_sep@.take(q as int),
        decreases with_sep@.len() - q,
    {
        crate_form.push(with_sep[q]);
        assert(c0 + with_sep@.take(q + 1) =~= (c0 + with_sep@.take(q as int)).push(with_sep@[q as int]));
        q = q + 1;
    }
    proof {
        assert(with_sep@ =~= pat@ + "::"@) by {
            reveal_strlit("::");
        }
        assert(with_sep@.take(with_sep@.len() as int) =~= with_sep@);
        assert(crate_form@ =~= "crate::"@ + pat@ + "::"@);
    }
    crate::text::starts_with_chars(module, with_sep.as_slice())
        || chars_eq(module, pat.as_slice())
        || crate::text::starts_with_chars(module, crate_form.as_slice())
}

/// The name of the first layer of `rules` that holds `module`.
pub fn detect_layer(module: &str, rules: &ArchitectureRules) -> (r: Option<String>)
    ensures
        crate::arch_linter::opt_view(r) == layer_of(module@, layer_views(rules.layers@)),
{
    let mc = to_chars(module);
    let mc = mc.as_slice();
    let n = rules.layers.len();
    let ghost lv = layer_views(rules.layers@);
    assert(lv.skip(0) =~= lv);
    for i in 0..n
        invariant
            n == rules.layers@.len(),
            lv == layer_views(rules.layers@),
            mc@ == module@,
            layer_of(module@, lv) == layer_of(module@, lv.skip(i as int)),
    {
        assert(lv.skip(i as int).drop_first() =~= lv.skip(i + 1));
        if layer_matches_exec(mc, rules.layers[i].path_pattern.as_str()) {
            return Some(rules.layers[i].name.clone());
        }
    }
    assert(lv.skip(n as int).len() == 0);
    None
}

pub proof fn lemma_module_dep_stats_other(name: Seq<char>, m: ModuleView, n: nat, layers: Seq<(Seq<char>, Seq<char>)>,
    banned: Seq<(Seq<char>, Seq<char>, Seq<char>)>)
    requires
        layer_of(m.module, layers) != Some(name),
    ensures
        module_dep_stats(name, m, n, layers, banned) == zero_stats(),
    decreases n,
{
    if n > 0 && n <= m.deps.len() {
        lemma_module_dep_stats_other(name, m, (n - 1) as nat, layers, banned);
    }
}

pub proof fn lemma_module_dep_stats_no_files(name: Seq<char>, m: ModuleView, n: nat, layers: Seq<(Seq<char>, Seq<char>)>,
    banned: Seq<(Seq<char>, Seq<char>, Seq<char>)>)
    ensures
        module_dep_stats(name, m, n, layers, banned).file_count == 0,
    decreases n,
{
    if n > 0 && n <= m.deps.len() {
        lemma_module_dep_stats_no_files(name, m, (n - 1) as nat, layers, banned);
    }
}

pub open spec fn dep_view(d: (String, DepInfo)) -> DepView {
    DepView { path: d.0@, file: d.1.file@, line: d.1.line as nat }
}

fn push_dep_violations(module: &str, dep: &(String, DepInfo), fl: &str, tl: &str, banned: &Vec<BannedDependency>,
    out: &mut Vec<Violation>) -> (c: usize)
    ensures
        violation_views(final(out)@) == violation_views(old(out)@)
            + dep_violations(module@, dep_view(*dep), fl@, tl@, banned_views(banned@)),
        c as nat == dep_violations(module@, dep_view(*dep), fl@, tl@, banned_views(banned@)).len(),
        final(out)@.len() == old(out)@.len() + c,
{
    let ghost bv = banned_views(banned@);
    let ghost o0 = violation_views(out@);
    let n = banned.len();
    let mut c: usize = 0;
    assert(bv.take(0) =~= Seq::<(Seq<char>, Seq<char>, Seq<char>)>::empty());
    assert(o0 + Seq::<ViolationView>::empty() =~= o0);
    for i in 0..n
        invariant
            n == banned@.len(),
            bv == banned_views(banned@),
            c <= i,
            c as nat == dep_violations(module@, dep_view(*dep), fl@, tl@, bv.take(i as int)).len(),
            violation_views(out@) == o0 + dep_violations(module@, dep_view(*dep), fl@, tl@, bv.take(i as int)),
    {
        assert(bv.take(i + 1).drop_last() =~= bv.take(i as int));
        let ghost before = violation_views(out@);
        let b = &banned[i];
        if str_eq(b.from.as_str(), fl) && str_eq(b.to.as_str(), tl) {
            let mut msg = owned(fl);
            push_str(&mut msg, " → ");
            push_str(&mut msg, tl);
            push_str(&mut msg, ": ");
            push_str(&mut msg, b.reason.as_str());
            out.push(Violation {
                rule: owned("layer_dependency"),
                from_module: owned(module),
                to_module: dep.0.clone(),
                file: dep.1.file.clone(),
                line: dep.1.line,
                severity: Severity::Error,
                message: msg,
            });
            c = c + 1;
            assert(violation_views(out@) =~= before.push(violation_views(out@).last()));
        }
    }
    assert(bv.take(n as int) =~= bv);
    c
}

fn find_name(names: &Vec<String>, name: &str) -> (r: Option<usize>)
    ensures
        r matches Some(k) ==> k < names@.len() && names@[k as int]@ == name@,
        r is None ==> forall|k: int| 0 <= k < names@.len() ==> names@[k]@ != name@,
{
    let n = names.len();
    for i in 0..n
        invariant
            n == names@.len(),
            forall|k: int| 0 <= k < i ==> names@[k]@ != name@,
    {
        if str_eq(names[i].as_str(), name) {
            return Some(i);
        }
    }
    None
}

pub open spec fn string_views(v: Seq<String>) -> Seq<Seq<char>> {
    v.map_values(|s: String| s@)
}

fn layer_names(rules: &ArchitectureRules) -> (r: Vec<String>)
    ensures
        string_views(r@) == unique_names(layer_views(rules.layers@)),
{
    let ghost lv = layer_views(rules.layers@);
    let mut r: Vec<String> = Vec::new();
    let n = rules.layers.len();
    assert(lv.take(0) =~= Seq::<(Seq<char>, Seq<char>)>::empty());
    assert(string_views(r@) =~= Seq::<Seq<char>>::empty());
    for i in 0..n
        invariant
            n == rules.layers@.len(),
            lv == layer_views(rules.layers@),
            string_views(r@) == unique_names(lv.take(i as int)),
    {
        assert(lv.take(i + 1).drop_last() =~= lv.take(i as int));
        let ghost before = string_views(r@);
        let name = &rules.layers[i].name;
        match find_name(&r, name.as_str()) {
            Some(k) => {
                assert(before[k as int] == name@);
                assert(before.contains(name@));
            },
            None => {
                assert(!before.contains(name@)) by {
                    if before.contains(name@) {
                        let k = choose|k: int| 0 <= k < before.len() && before[k] == name@;
                        assert(r@[k]@ == name@);
                    }
                }
                r.push(name.clone());
                assert(string_views(r@) =~= before.push(name@));
            },
        }
    }
    assert(lv.take(n as int) =~= lv);
    r
}

/// Validates the layering of a project, given each module's path and imports.
#[verifier::rlimit(80)]
pub fn validate_architecture(modules: &[ModuleDeps], rules: &ArchitectureRules) -> (r: ValidationResult)
    requires
        total_deps(module_views(modules@)) < usize::MAX,
    ensures
        violation_views(r.violations@)
            == all_violations(module_views(modules@), layer_views(rules.layers@), banned_views(rules.banned_dependencies@)),
        r.passed == (r.violations@.len() == 0),
        stats_view(r.layer_stats@).map_values(|p: (Seq<char>, LayerStats)| p.0) == unique_names(layer_views(rules.layers@)),
        forall|k: int| 0 <= k < r.layer_stats@.len() ==> stats_eq(#[trigger] r.layer_stats@[k].1,
            layer_stats_spec(r.layer_stats@[k].0@, module_views(modules@), layer_views(rules.layers@),
                banned_views(rules.banned_dependencies@))),
{
    let ghost mv = module_views(modules@);
    let ghost lv = layer_views(rules.layers@);
    let ghost bv = banned_views(rules.banned_dependencies@);
    let names = layer_names(rules);
    let ghost nv = string_views(names@);
    proof {
        lemma_unique_names(lv);
    }
    let mut counts: Vec<LayerStats> = Vec::new();
    for k in 0..names.len()
        invariant
            counts@.len() == k,
            forall|q: int| 0 <= q < k ==> counts@[q] == LayerStats::default_value(),
    {
        counts.push(LayerStats::default());
    }
    let mut violations: Vec<Violation> = Vec::new();
    let mut seen: usize = 0;
    let n = modules.len();
    assert(mv.take(0) =~= Seq::<ModuleView>::empty());
    assert(violation_views(violations@) =~= Seq::<ViolationView>::empty());
    for i in 0..n
        invariant
            n == modules@.len(),
            mv == module_views(modules@),
            lv == layer_views(rules.layers@),
            bv == banned_views(rules.banned_dependencies@),
            nv == string_views(names@),
            nv == unique_names(lv),
            nv.no_duplicates(),
            forall|k: int| 0 <= k < lv.len() ==> nv.contains(#[trigger] lv[k].0),
            total_deps(mv) < usize::MAX,
            counts@.len() == names@.len(),
            seen as nat == total_deps(mv.take(i as int)),
            forall|k: int| 0 <= k < counts@.len() ==> stats_eq(#[trigger] counts@[k],
                layer_stats_spec(nv[k], mv.take(i as int), lv, bv)),
            forall|k: int| 0 <= k < counts@.len() ==> (#[trigger] counts@[k]).file_count <= i
                && counts@[k].internal_deps + counts@[k].external_deps <= seen
                && counts@[k].violations <= violations@.len(),
            violation_views(violations@) == all_violations(mv.take(i as int), lv, bv),
    {
        let m = &modules[i];
        let ghost mview = mv[i as int];
        assert(mview == module_views(modules@)[i as int]);
        assert(mv.take(i + 1).drop_last() =~= mv.take(i as int));
        assert(mv.take(i + 1).last() == mview);
        proof {
            crate::arch_service::lemma_total_deps_take(mv, i + 1);
        }
        let from = detect_layer(m.module.as_str(), rules);
        let ghost v_start = violation_views(violations@);
        let ghost c_start = counts@;
        let mut idx: Option<usize> = None;
        match &from {
            Some(f) => {
                proof {
                    lemma_layer_of_in_layers(m.module@, lv);
                    let kk = choose|kk: int| 0 <= kk < lv.len() && lv[kk].0 == f@;
                    assert(nv.contains(lv[kk].0));
                }
                let k = find_name(&names, f.as_str());
                match k {
                    Some(k) => {
                        let mut st = counts[k];
                        st.file_count = st.file_count + 1;
                        counts.set(k, st);
                        idx = Some(k);
                    },
                    None => {
                        assert(false);
                    },
                }
            },
            None => {},
        }
        let nd = m.deps.len();
        let ghost dv = dep_views(m.deps@);
        assert(mview.deps == dv);
        for j in 0..nd
            invariant
                nd == m.deps@.len(),
                dv == dep_views(m.deps@),
                mview.deps == dv,
                mview.module == m.module@,
                crate::arch_linter::opt_view(from) == layer_of(m.module@, lv),
                lv == layer_views(rules.layers@),
                bv == banned_views(rules.banned_dependencies@),
                nv == string_views(names@),
                nv.no_duplicates(),
                counts@.len() == names@.len(),
                counts@.len() == c_start.len(),
                total_deps(mv) < usize::MAX,
                seen as nat == total_deps(mv.take(i as int)) + j,
                total_deps(mv.take(i as int)) + nd <= total_deps(mv),
                forall|k: int| 0 <= k < c_start.len() ==> #[trigger] c_start[k].internal_deps + c_start[k].external_deps
                    <= total_deps(mv.take(i as int)),
                idx matches Some(k) ==> (k < counts@.len() && (from matches Some(f) && nv[k as int] == f@)),
                idx is None ==> from is None,
                forall|k: int| 0 <= k < counts@.len() && (idx is None || idx->0 as int != k) ==> #[trigger] counts@[k] == c_start[k],
                idx matches Some(k) ==> (counts@[k as int].file_count == c_start[k as int].file_count + 1
                    && counts@[k as int].internal_deps as nat == c_start[k as int].internal_deps as nat
                        + module_dep_stats(nv[k as int], mview, j as nat, lv, bv).internal_deps
                    && counts@[k as int].external_deps as nat == c_start[k as int].external_deps as nat
                        + module_dep_stats(nv[k as int], mview, j as nat, lv, bv).external_deps
                    && counts@[k as int].violations as nat == c_start[k as int].violations as nat
                        + module_dep_stats(nv[k as int], mview, j as nat, lv, bv).violations
                    && counts@[k as int].internal_deps + counts@[k as int].external_deps
                        <= c_start[k as int].internal_deps + c_start[k as int].external_deps + j
                    && counts@[k as int].violations <= violations@.len()),
                violation_views(violations@) == v_start + module_violations(mview, j as nat, lv, bv),
        {
            let d = &m.deps[j];
            let ghost before = violation_views(violations@);
            let to = detect_layer(d.0.as_str(), rules);
            assert(dv[j as int] == dep_view(*d));
            match (&from, &to) {
                (Some(f), Some(t)) => {
                    let c = push_dep_violations(m.module.as_str(), d, f.as_str(), t.as_str(), &rules.banned_dependencies, &mut violations);
                    let total = violations.len();
                    match idx {
                        Some(k) => {
                            let mut st = counts[k];
                            if str_eq(f.as_str(), t.as_str()) {
                                st.internal_deps = st.internal_deps + 1;
                            } else {
                                st.external_deps = st.external_deps + 1;
                            }
                            st.violations = st.violations + c;
                            counts.set(k, st);
                        },
                        None => {},
                    }
                },
                _ => {},
            }
            seen = seen + 1;
            assert(violation_views(violations@) =~= v_start + module_violations(mview, (j + 1) as nat, lv, bv));
        }
        proof {
            assert(violation_views(violations@) =~= all_violations(mv.take(i + 1), lv, bv));
            assert forall|k: int| 0 <= k < counts@.len() implies stats_eq(#[trigger] counts@[k],
                layer_stats_spec(nv[k], mv.take(i + 1), lv, bv)) by {
                assert(layer_stats_spec(nv[k], mv.take(i + 1), lv, bv)
                    == add_stats(layer_stats_spec(nv[k], mv.take(i as int), lv, bv), module_own_stats(nv[k], mview, lv, bv)));
                assert(stats_eq(c_start[k], layer_stats_spec(nv[k], mv.take(i as int), lv, bv)));
                if idx is Some && idx->0 as int == k {
                    assert(layer_of(mview.module, lv) == Some(nv[k]));
                    assert(nd as nat == mview.deps.len());
                    assert(module_own_stats(nv[k], mview, lv, bv) == add_stats(
                        StatsSpec { file_count: 1, internal_deps: 0, external_deps: 0, violations: 0 },
                        module_dep_stats(nv[k], mview, nd as nat, lv, bv)));
                    let q = idx->0;
                    assert(counts@[q as int].internal_deps as nat == c_start[q as int].internal_deps as nat
                        + module_dep_stats(nv[q as int], mview, nd as nat, lv, bv).internal_deps);
                    assert(counts@[q as int].external_deps as nat == c_start[q as int].external_deps as nat
                        + module_dep_stats(nv[q as int], mview, nd as nat, lv, bv).external_deps);
                    assert(counts@[q as int].violations as nat == c_start[q as int].violations as nat
                        + module_dep_stats(nv[q as int], mview, nd as nat, lv, bv).violations);
                    assert(counts@[k].file_count == c_start[k].file_count + 1);
                    let sp = layer_stats_spec(nv[k], mv.take(i + 1), lv, bv);
                    let s0 = layer_stats_spec(nv[k], mv.take(i as int), lv, bv);
                    let md = module_dep_stats(nv[k], mview, nd as nat, lv, bv);
                    lemma_module_dep_stats_no_files(nv[k], mview, nd as nat, lv, bv);
                    assert(sp.file_count == s0.file_count + 1);
                    assert(sp.internal_deps == s0.internal_deps + md.internal_deps);
                    assert(sp.external_deps == s0.external_deps + md.external_deps);
                    assert(sp.violations == s0.violations + md.violations);
                    assert(stats_eq(counts@[k], layer_stats_spec(nv[k], mv.take(i + 1), lv, bv)));
                } else {
                    assert(counts@[k] == c_start[k]);
                    if layer_of(mview.module, lv) == Some(nv[k]) {
                        assert(idx is Some);
                        let q = idx->0;
                        assert(nv[q as int] == nv[k]);
                        assert(q as int != k);
                        assert(false);
                    }
                }
            }
        }
    }
    assert(mv.take(n as int) =~= mv);
    let mut layer_stats: Vec<(String, LayerStats)> = Vec::new();
    let nn = names.len();
    for k in 0..nn
        invariant
            nn == names@.len(),
            counts@.len() == nn,
            layer_stats@.len() == k,
            forall|q: int| 0 <= q < k ==> (#[trigger] layer_stats@[q]).0@ == names@[q]@ && layer_stats@[q].1 == counts@[q],
    {
        layer_stats.push((names[k].clone(), counts[k]));
    }
    proof {
        assert(stats_view(layer_stats@).map_values(|p: (Seq<char>, LayerStats)| p.0) =~= nv);
    }
    let passed = violations.len() == 0;
    ValidationResult { passed, violations, layer_stats }
}

pub proof fn lemma_total_deps_take(ms: Seq<ModuleView>, i: int)
    requires
        0 < i <= ms.len(),
    ensures
        total_deps(ms.take(i)) == total_deps(ms.take(i - 1)) + ms[i - 1].deps.len(),
        total_deps(ms.take(i)) <= total_deps(ms),
    decreases ms.len() - i,
{
    assert(ms.take(i).drop_last() =~= ms.take(i - 1));
    if i < ms.len() {
        lemma_total_deps_take(ms, i + 1);
    } else {
        assert(ms.take(i) =~= ms);
    }
}

// ----------------------------------------------------------------------------
// Reading modules from source text
// ----------------------------------------------------------------------------

/// The module path of a source file, from its path relative to `src/`.
pub open spec fn module_of_path(rel: Seq<char>) -> Seq<char> {
    let r = replace_char(rel, '\\', '/');
    let w = trim_end_matches(r, ".rs"@);
    let mp = if ends_with(w, "/mod"@) {
        trim_end_matches(w, "/mod"@)
    } else if w == "mod"@ {
        "lib"@
    } else {
        w
    };
    replace_all(replace_all(mp, "/"@, "::"@), "lib::"@, Seq::empty())
}

/// The module path of a source file, from its path relative to `src/`.
pub fn path_to_module(rel: &str) -> (r: String)
    ensures
        r@ == module_of_path(rel@),
{
    let raw = to_chars(rel);
    let r1 = replace_char_in(raw.as_slice(), '\\', '/');
    let w = trim_end_matches_exec(r1.as_slice(), ".rs");
    let mp: Vec<char> = if finishes(w.as_slice(), "/mod") {
        trim_end_matches_exec(w.as_slice(), "/mod")
    } else if crate::text::chars_eq(w.as_slice(), to_chars("mod").as_slice()) {
        to_chars("lib")
    } else {
        w
    };
    let a = replace_all_exec(mp.as_slice(), "/", "::");
    let b = replace_all_exec(a.as_slice(), "lib::", "");
    proof {
        assert(""@ =~= Seq::<char>::empty()) by {
            reveal_strlit("");
        }
    }
    crate::text::from_chars(b.as_slice())
}

/// The module a `use crate::...` line imports, as the dependency map keys it.
pub open spec fn crate_use_dep(t: Seq<char>) -> Option<Seq<char>> {
    if starts_with(t, "use crate::"@) || starts_with(t, "pub use crate::"@) {
        let rest = trim_start_matches(trim_start_matches(t, "pub use "@), "use "@);
        let dm = trim(trim_end_matches(trim_end_matches(before_first(before_first(rest, ";"@), " as "@), "::*"@), "{"@));
        let clean = trim_end_matches(dm, "::"@);
        if clean.len() > 0 && clean != "crate"@ { Some(clean) } else { None }
    } else {
        None
    }
}

/// The module a `use super::...` line imports, as the dependency map keys it.
pub open spec fn super_use_dep(t: Seq<char>) -> Option<Seq<char>> {
    if starts_with(t, "use super::"@) {
        Some("super::"@ + before_first(trim_start_matches(t, "use "@), ";"@))
    } else {
        None
    }
}

/// Position of the entry with key `k`, if any.
pub open spec fn key_index(es: Seq<DepView>, k: Seq<char>) -> Option<nat>
    decreases es.len(),
{
    if es.len() == 0 {
        None
    } else {
        match key_index(es.drop_last(), k) {
            Some(i) => Some(i),
            None => if es.last().path == k { Some((es.len() - 1) as nat) } else { None },
        }
    }
}

/// `es` with the entry for `d.path` replaced by `d`, or `d` added at the end.
pub open spec fn insert_dep(es: Seq<DepView>, d: DepView) -> Seq<DepView> {
    match key_index(es, d.path) {
        Some(i) => es.update(i as int, d),
        None => es.push(d),
    }
}

/// The dependency entries of one line (numbered from 0) added to `es`.
pub open spec fn line_deps(es: Seq<DepView>, file: Seq<char>, idx: nat, line: Seq<char>) -> Seq<DepView> {
    let t = trim(line);
    let e1 = match crate_use_dep(t) {
        Some(d) => insert_dep(es, DepView { path: d, file, line: idx + 1 }),
        None => es,
    };
    match super_use_dep(t) {
        Some(d) => insert_dep(e1, DepView { path: d, file, line: idx + 1 }),
        None => e1,
    }
}

/// The dependency entries of the first `n` lines.
pub open spec fn deps_upto(file: Seq<char>, ls: Seq<Seq<char>>, n: nat) -> Seq<DepView>
    decreases n,
{
    if n == 0 || n > ls.len() {
        Seq::empty()
    } else {
        line_deps(deps_upto(file, ls, (n - 1) as nat), file, (n - 1) as nat, ls[n - 1])
    }
}

/// The modules a source file imports, each with the last line that imports it.
pub open spec fn file_deps(file: Seq<char>, content: Seq<char>) -> Seq<DepView> {
    deps_upto(file, lines(content), lines(content).len())
}

fn find_dep(es: &Vec<(String, DepInfo)>, k: &[char]) -> (r: Option<usize>)
    ensures
        match key_index(dep_views(es@), k@) {
            Some(i) => r is Some && r->0 as nat == i && i < es@.len(),
            None => r is None,
        },
{
    let n = es.len();
    let ghost dv = dep_views(es@);
    assert(dv.take(0) =~= Seq::<DepView>::empty());
    let mut i: usize = 0;
    while i < n
        invariant
            n == es@.len(),
            dv == dep_views(es@),
            i <= n,
            key_index(dv.take(i as int), k@) is None,
        decreases n - i,
    {
        assert(dv.take(i + 1).drop_last() =~= dv.take(i as int));
        let kc = to_chars(es[i].0.as_str());
        if crate::text::chars_eq(kc.as_slice(), k) {
            proof {
                lemma_key_index_prefix(dv, k@, i as int);
            }
            return Some(i);
        }
        i = i + 1;
    }
    assert(dv.take(n as int) =~= dv);
    None
}

pub proof fn lemma_key_index_prefix(es: Seq<DepView>, k: Seq<char>, i: int)
    requires
        0 <= i < es.len(),
        key_index(es.take(i), k) is None,
        es[i].path == k,
    ensures
        key_index(es, k) == Some(i as nat),
    decreases es.len() - i,
{
    assert(es.take(i + 1).drop_last() =~= es.take(i));
    if i + 1 < es.len() {
        lemma_key_index_stable(es, k, i + 1);
    } else {
        assert(es.take(i + 1) =~= es);
    }
}

pub proof fn lemma_key_index_stable(es: Seq<DepView>, k: Seq<char>, j: int)
    requires
        0 < j <= es.len(),
        key_index(es.take(j), k) is Some,
    ensures
        key_index(es, k) == key_index(es.take(j), k),
    decreases es.len() - j,
{
    if j < es.len() {
        assert(es.take(j + 1).drop_last() =~= es.take(j));
        lemma_key_index_stable(es, k, j + 1);
    } else {
        assert(es.take(j) =~= es);
    }
}

fn insert_dep_exec(es: &mut Vec<(String, DepInfo)>, key: Vec<char>, file: &str, line: usize)
    ensures
        dep_views(final(es)@) == insert_dep(dep_views(old(es)@), DepView { path: key@, file: file@, line: line as nat }),
{
    let entry = (crate::text::from_chars(key.as_slice()), DepInfo { file: owned(file), line });
    match find_dep(es, key.as_slice()) {
        Some(i) => {
            es.set(i, entry);
            assert(dep_views(es@) =~= dep_views(old(es)@).update(i as int, DepView { path: key@, file: file@, line: line as nat }));
        },
        None => {
            es.push(entry);
            assert(dep_views(es@) =~= dep_views(old(es)@).push(DepView { path: key@, file: file@, line: line as nat }));
        },
    }
}

fn crate_use_dep_exec(t: &[char]) -> (r: Option<Vec<char>>)
    ensures
        match crate_use_dep(t@) {
            Some(d) => r is Some && r->0@ == d,
            None => r is None,
        },
{
    if begins(t, "use crate::") || begins(t, "pub use crate::") {
        let a = trim_start_matches_exec(t, "pub use ");
        let b = trim_start_matches_exec(a.as_slice(), "use ");
        let c = before_first_exec(b.as_slice(), ";");
        let d = before_first_exec(c.as_slice(), " as ");
        let e = trim_end_matches_exec(d.as_slice(), "::*");
        let f = trim_end_matches_exec(e.as_slice(), "{");
        let g = trim_chars(f.as_slice());
        let clean = trim_end_matches_exec(g.as_slice(), "::");
        let is_crate = crate::text::chars_eq(clean.as_slice(), to_chars("crate").as_slice());
        if clean.len() > 0 && !is_crate {
            Some(clean)
        } else {
            None
        }
    } else {
        None
    }
}

fn super_use_dep_exec(t: &[char]) -> (r: Option<Vec<char>>)
    ensures
        match super_use_dep(t@) {
            Some(d) => r is Some && r->0@ == d,
            None => r is None,
        },
{
    if begins(t, "use super::") {
        let a = trim_start_matches_exec(t, "use ");
        let b = before_first_exec(a.as_slice(), ";");
        let mut k = to_chars("super::");
        let ghost k0 = k@;
        for q in 0..b.len()
            invariant
                k@ == k0 + b@.take(q as int),
        {
            k.push(b[q]);
            assert(k0 + b@.take(q + 1) =~= (k0 + b@.take(q as int)).push(b@[q as int]));
        }
        assert(b@.take(b@.len() as int) =~= b@);
        Some(k)
    } else {
        None
    }
}

/// The modules a source file imports, each with the last line that imports it.
pub fn parse_file_deps(file: &str, content: &str) -> (r: Vec<(String, DepInfo)>)
    requires
        crate::text::text_fits(content@),
    ensures
        dep_views(r@) == file_deps(file@, content@),
{
    let cc = to_chars(content);
    let ls = crate::text::split_lines(cc.as_slice());
    proof {
        crate::text::lemma_lines_len(content@);
    }
    let ghost vl = views(ls@);
    let mut es: Vec<(String, DepInfo)> = Vec::new();
    let n = ls.len();
    assert(dep_views(es@) =~= Seq::<DepView>::empty());
    for i in 0..n
        invariant
            n == ls@.len(),
            n < usize::MAX,
            vl == views(ls@),
            vl == lines(content@),
            dep_views(es@) == deps_upto(file@, vl, i as nat),
    {
        let t = trim_chars(ls[i].as_slice());
        assert(vl[i as int] == ls@[i as int]@);
        match crate_use_dep_exec(t.as_slice()) {
            Some(d) => insert_dep_exec(&mut es, d, file, i + 1),
            None => {},
        }
        match super_use_dep_exec(t.as_slice()) {
            Some(d) => insert_dep_exec(&mut es, d, file, i + 1),
            None => {},
        }
    }
    es
}

/// Position of the module named `k`, if any.
pub open spec fn module_index(ms: Seq<ModuleView>, k: Seq<char>) -> Option<nat>
    decreases ms.len(),
{
    if ms.len() == 0 {
        None
    } else {
        match module_index(ms.drop_last(), k) {
            Some(i) => Some(i),
            None => if ms.last().module == k { Some((ms.len() - 1) as nat) } else { None },
        }
    }
}

/// `ms` with the module named `m.module` replaced by `m`, or `m` added at the end.
pub open spec fn insert_module(ms: Seq<ModuleView>, m: ModuleView) -> Seq<ModuleView> {
    match module_index(ms, m.module) {
        Some(i) => ms.update(i as int, m),
        None => ms.push(m),
    }
}

pub proof fn lemma_module_index_stable(ms: Seq<ModuleView>, k: Seq<char>, j: int)
    requires
        0 < j <= ms.len(),
        module_index(ms.take(j), k) is Some,
    ensures
        module_index(ms, k) == module_index(ms.take(j), k),
    decreases ms.len() - j,
{
    if j < ms.len() {
        assert(ms.take(j + 1).drop_last() =~= ms.take(j));
        lemma_module_index_stable(ms, k, j + 1);
    } else {
        assert(ms.take(j) =~= ms);
    }
}

/// Adds a source file to the modules of a project: its module path comes from
/// `rel` (relative to `src/`), its imports from `content`; a module seen
/// before is replaced.
pub fn record_module(modules: &mut Vec<ModuleDeps>, rel: &str, file: &str, content: &str)
    requires
        crate::text::text_fits(content@),
    ensures
        module_views(final(modules)@) == insert_module(module_views(old(modules)@),
            ModuleView { module: module_of_path(rel@), deps: file_deps(file@, content@) }),
{
    let name = path_to_module(rel);
    let deps = parse_file_deps(file, content);
    let ghost mv = module_views(modules@);
    let ghost m = ModuleView { module: name@, deps: dep_views(deps@) };
    let found = find_module(modules, name.as_str());
    let entry = ModuleDeps { module: name, deps };
    assert(module_views(seq![entry]) =~= seq![m]);
    match found {
        Some(i) => {
            modules.set(i, entry);
            assert(module_views(modules@) =~= mv.update(i as int, m));
        },
        None => {
            modules.push(entry);
            assert(module_views(modules@) =~= mv.push(m));
        },
    }
}

fn find_module(modules: &Vec<ModuleDeps>, name: &str) -> (r: Option<usize>)
    ensures
        match module_index(module_views(modules@), name@) {
            Some(i) => r is Some && r->0 as nat == i && i < modules@.len(),
            None => r is None,
        },
{
    let ghost mv = module_views(modules@);
    let n = modules.len();
    assert(mv.take(0) =~= Seq::<ModuleView>::empty());
    let mut i: usize = 0;
    while i < n
        invariant
            n == modules@.len(),
            mv == module_views(modules@),
            i <= n,
            module_index(mv.take(i as int), name@) is None,
        decreases n - i,
    {
        assert(mv.take(i + 1).drop_last() =~= mv.take(i as int));
        if str_eq(modules[i].module.as_str(), name) {
            proof {
                assert(module_index(mv.take(i + 1), name@) == Some(i as nat));
                if i + 1 < n {
                    lemma_module_index_stable(mv, name@, i + 1);
                } else {
                    assert(mv.take(i + 1) =~= mv);
                }
            }
            return Some(i);
        }
        i = i + 1;
    }
    assert(mv.take(n as int) =~= mv);
    None
}

pub open spec fn layer_triples(ls: Seq<LayerRule>) -> Seq<(Seq<char>, Seq<char>, Seq<char>)> {
    ls.map_values(|l: LayerRule| (l.name@, l.path_pattern@, l.description@))
}

/// The four layers of a cell and where they live.
pub open spec fn default_layers() -> Seq<(Seq<char>, Seq<char>, Seq<char>)> {
    seq![
        ("domain"@, "src/domain"@, "领域内核层，纯业务逻辑，无外部依赖"@),
        ("application"@, "src/application"@, "应用服务层，编排业务流程，依赖domain"@),
        ("adapters"@, "src/adapters"@, "适配器层，实现Port接口，依赖application/domain"@),
        ("interfaces"@, "src/interfaces"@, "接口层，CLI/API等入口，依赖application"@)
    ]
}

/// The dependencies forbidden between the layers of a cell.
pub open spec fn default_banned() -> Seq<(Seq<char>, Seq<char>, Seq<char>)> {
    seq![
        ("domain"@, "application"@, "领域层不能依赖应用层"@),
        ("domain"@, "adapters"@, "领域层不能依赖适配器层"@),
        ("domain"@, "interfaces"@, "领域层不能依赖接口层"@),
        ("application"@, "interfaces"@, "应用层不能依赖接口层"@),
        ("application"@, "adapters"@, "应用层不能直接依赖适配器，必须通过Port"@),
        ("adapters"@, "interfaces"@, "适配器层不能依赖接口层"@)
    ]
}

fn layer_rule(name: &str, path_pattern: &str, description: &str) -> (r: LayerRule)
    ensures
        (r.name@, r.path_pattern@, r.description@) == (name@, path_pattern@, description@),
{
    LayerRule { name: owned(name), path_pattern: owned(path_pattern), description: owned(description) }
}

fn banned_dep(from: &str, to: &str, reason: &str) -> (r: BannedDependency)
    ensures
        (r.from@, r.to@, r.reason@) == (from@, to@, reason@),
{
    BannedDependency { from: owned(from), to: owned(to), reason: owned(reason) }
}

impl Default for ArchitectureRules {
    /// The four-layer cell architecture with inward-only dependencies.
    fn default() -> (r: Self)
        ensures
            layer_triples(r.layers@) == default_layers(),
            r.dependency_direction == DependencyDirection::InwardOnly,
            banned_views(r.banned_dependencies@) == default_banned(),
    {
        let mut layers: Vec<LayerRule> = Vec::new();
        layers.push(layer_rule("domain", "src/domain", "领域内核层，纯业务逻辑，无外部依赖"));
        layers.push(layer_rule("application", "src/application", "应用服务层，编排业务流程，依赖domain"));
        layers.push(layer_rule("adapters", "src/adapters", "适配器层，实现Port接口，依赖application/domain"));
        layers.push(layer_rule("interfaces", "src/interfaces", "接口层，CLI/API等入口，依赖application"));
        let mut banned: Vec<BannedDependency> = Vec::new();
        banned.push(banned_dep("domain", "application", "领域层不能依赖应用层"));
        banned.push(banned_dep("domain", "adapters", "领域层不能依赖适配器层"));
        banned.push(banned_dep("domain", "interfaces", "领域层不能依赖接口层"));
        banned.push(banned_dep("application", "interfaces", "应用层不能依赖接口层"));
        banned.push(banned_dep("application", "adapters", "应用层不能直接依赖适配器，必须通过Port"));
        banned.push(banned_dep("adapters", "interfaces", "适配器层不能依赖接口层"));
        assert(layer_triples(layers@) =~= default_layers());
        assert(banned_views(banned@) =~= default_banned());
        ArchitectureRules { layers, dependency_direction: DependencyDirection::InwardOnly, banned_dependencies: banned }
    }
}

} // verus!
