//! Project configuration: its sections, the checks on them, and reading and
//! writing single settings by dotted key over the configuration document.
use vstd::prelude::*;
use crate::text::{owned, push_str, to_chars, from_char_range, first_index_of, find_char_from,
    lemma_first_index_of_bounds, is_digit, count_char, join, str_eq};
use crate::impact_analysis_service::string_views;
use crate::errors::{CellError, CellResult};

verus! {

/// The project section of the configuration.
#[derive(Debug, Clone)]
pub struct ProjectConfig {
    pub name: String,
    pub version: String,
    pub description: String,
    pub language: String,
}

impl Default for ProjectConfig {
    fn default() -> (r: Self)
        ensures
            r.name@ == "cell-project"@,
            r.version@ == "0.1.0"@,
            r.description@ == Seq::<char>::empty(),
            r.language@ == "rust"@,
    {
        ProjectConfig {
            name: owned("cell-project"),
            version: owned("0.1.0"),
            description: String::new(),
            language: owned("rust"),
        }
    }
}

/// The architecture section: the layers from inside out, and how strictly
/// they are enforced.
#[derive(Debug, Clone)]
pub struct ArchitectureConfig {
    pub layers: Vec<String>,
    pub strict_mode: bool,
    pub allowed_cross_layer: Vec<String>,
}

impl Default for ArchitectureConfig {
    fn default() -> (r: Self)
        ensures
            string_views(r.layers@) == seq!["domain"@, "application"@, "adapters"@, "interfaces"@],
            !r.strict_mode,
            r.allowed_cross_layer@.len() == 0,
    {
        let mut layers: Vec<String> = Vec::new();
        layers.push(owned("domain"));
        layers.push(owned("application"));
        layers.push(owned("adapters"));
        layers.push(owned("interfaces"));
        assert(string_views(layers@) =~= seq!["domain"@, "application"@, "adapters"@, "interfaces"@]);
        ArchitectureConfig { layers, strict_mode: false, allowed_cross_layer: Vec::new() }
    }
}

/// Complexity limits of the entropy checks.
#[derive(Debug, Clone, Copy, PartialEq, Eq, Structural)]
pub struct ComplexityThresholdsConfig {
    pub max_function_lines: usize,
    pub max_file_lines: usize,
    pub max_nesting_depth: usize,
    pub max_cyclomatic_complexity: usize,
}

impl Default for ComplexityThresholdsConfig {
    fn default() -> (r: Self)
        ensures
            r == (ComplexityThresholdsConfig {
                max_function_lines: 50,
                max_file_lines: 500,
                max_nesting_depth: 5,
                max_cyclomatic_complexity: 10,
            }),
    {
        ComplexityThresholdsConfig {
            max_function_lines: 50,
            max_file_lines: 500,
            max_nesting_depth: 5,
            max_cyclomatic_complexity: 10,
        }
    }
}

/// The outcome of checking a configuration.
#[derive(Debug, Clone)]
pub struct ConfigValidationResult {
    pub valid: bool,
    pub errors: Vec<String>,
    pub warnings: Vec<String>,
}

/// A version of dot-separated numbers: at least two parts, each of ASCII
/// digits only.
pub open spec fn semver_like(v: Seq<char>) -> bool {
    count_char(v, '.') >= 1 && forall|i: int| 0 <= i < v.len() ==> is_digit(#[trigger] v[i]) || v[i] == '.'
}

proof fn lemma_count_char_pos(s: Seq<char>, c: char, i: int)
    requires
        0 <= i < s.len(),
        s[i] == c,
    ensures
        count_char(s, c) >= 1,
    decreases s.len(),
{
    if i < s.len() - 1 {
        lemma_count_char_pos(s.drop_last(), c, i);
    }
}

proof fn lemma_count_char_zero(s: Seq<char>, c: char)
    requires
        forall|i: int| 0 <= i < s.len() ==> s[i] != c,
    ensures
        count_char(s, c) == 0,
    decreases s.len(),
{
    if s.len() > 0 {
        lemma_count_char_zero(s.drop_last(), c);
    }
}

/// Whether a version looks like a semantic version.
pub fn is_semver_like(version: &str) -> (r: bool)
    ensures
        r == semver_like(version@),
{
    let v = to_chars(version);
    let mut dot = false;
    for i in 0..v.len()
        invariant
            v@ == version@,
            forall|k: int| 0 <= k < i ==> is_digit(#[trigger] v@[k]) || v@[k] == '.',
            dot <==> exists|k: int| 0 <= k < i && v@[k] == '.',
    {
        let c = v[i];
        if !(('0' <= c && c <= '9') || c == '.') {
            return false;
        }
        if c == '.' {
            dot = true;
        }
    }
    proof {
        if dot {
            let k = choose|k: int| 0 <= k < v@.len() && v@[k] == '.';
            lemma_count_char_pos(v@, '.', k);
        } else {
            lemma_count_char_zero(v@, '.');
        }
    }
    dot
}

/// The errors of a configuration, in the order the checks run.  The range
/// checks on the fractional thresholds come in as their outcomes.
pub open spec fn config_errors(p: ProjectConfig, max_file_lines: usize, max_function_lines: usize,
    warning_in_range: bool, critical_in_range: bool, warning_below_critical: bool, coverage_in_range: bool) -> Seq<Seq<char>> {
    (if p.name@.len() == 0 { seq!["project.name 不能为空"@] } else { Seq::empty() })
        + (if p.version@.len() == 0 { seq!["project.version 不能为空"@] } else { Seq::empty() })
        + (if !warning_in_range { seq!["entropy.warning_threshold 必须在 0.0 到 1.0 之间"@] } else { Seq::empty() })
        + (if !critical_in_range { seq!["entropy.critical_threshold 必须在 0.0 到 1.0 之间"@] } else { Seq::empty() })
        + (if !warning_below_critical { seq!["entropy.warning_threshold 必须小于 entropy.critical_threshold"@] } else { Seq::empty() })
        + (if !coverage_in_range { seq!["quality.min_test_coverage 必须在 0 到 100 之间"@] } else { Seq::empty() })
        + (if max_file_lines == 0 { seq!["quality.max_file_lines 不能为 0"@] } else { Seq::empty() })
        + (if max_function_lines == 0 { seq!["quality.max_function_lines 不能为 0"@] } else { Seq::empty() })
}

/// The warnings of a configuration.
pub open spec fn config_warnings(p: ProjectConfig, a: ArchitectureConfig) -> Seq<Seq<char>> {
    (if p.version@.len() > 0 && !semver_like(p.version@) { seq!["project.version 建议使用语义化版本格式 (如 0.1.0)"@] } else { Seq::empty() })
        + (if a.layers@.len() == 0 { seq!["architecture.layers 为空，分层检查将被跳过"@] } else { Seq::empty() })
}

fn push_if(v: &mut Vec<String>, cond: bool, msg: &str)
    ensures
        string_views(final(v)@) == string_views(old(v)@) + if cond { seq![msg@] } else { Seq::empty() },
{
    let ghost before = string_views(v@);
    if cond {
        let m = owned(msg);
        v.push(m);
        assert(string_views(v@) =~= before + seq![msg@]);
    } else {
        assert(before + Seq::<Seq<char>>::empty() =~= before);
    }
}

/// Checks a configuration: empty names and versions, thresholds out of
/// range, zero limits are errors; an unusual version or no layers are
/// warnings.
pub fn validate_config(project: &ProjectConfig, architecture: &ArchitectureConfig, max_file_lines: usize,
    max_function_lines: usize, warning_in_range: bool, critical_in_range: bool, warning_below_critical: bool,
    coverage_in_range: bool) -> (r: ConfigValidationResult)
    ensures
        string_views(r.errors@) == config_errors(*project, max_file_lines, max_function_lines, warning_in_range,
            critical_in_range, warning_below_critical, coverage_in_range),
        string_views(r.warnings@) == config_warnings(*project, *architecture),
        r.valid == (r.errors@.len() == 0),
{
    let mut errors: Vec<String> = Vec::new();
    let mut warnings: Vec<String> = Vec::new();
    assert(string_views(errors@) =~= Seq::<Seq<char>>::empty());
    assert(string_views(warnings@) =~= Seq::<Seq<char>>::empty());
    let name_len = to_chars(project.name.as_str()).len();
    let version_len = to_chars(project.version.as_str()).len();
    push_if(&mut errors, name_len == 0, "project.name 不能为空");
    push_if(&mut errors, version_len == 0, "project.version 不能为空");
    let semver = is_semver_like(project.version.as_str());
    push_if(&mut warnings, version_len > 0 && !semver, "project.version 建议使用语义化版本格式 (如 0.1.0)");
    push_if(&mut errors, !warning_in_range, "entropy.warning_threshold 必须在 0.0 到 1.0 之间");
    push_if(&mut errors, !critical_in_range, "entropy.critical_threshold 必须在 0.0 到 1.0 之间");
    push_if(&mut errors, !warning_below_critical, "entropy.warning_threshold 必须小于 entropy.critical_threshold");
    push_if(&mut errors, !coverage_in_range, "quality.min_test_coverage 必须在 0 到 100 之间");
    push_if(&mut errors, max_file_lines == 0, "quality.max_file_lines 不能为 0");
    push_if(&mut errors, max_function_lines == 0, "quality.max_function_lines 不能为 0");
    push_if(&mut warnings, architecture.layers.len() == 0, "architecture.layers 为空，分层检查将被跳过");
    assert(string_views(errors@).len() == errors@.len());
    ConfigValidationResult { valid: errors.len() == 0, errors, warnings }
}

/// A configuration document as JSON values: the serialized configuration.
#[derive(Debug, PartialEq)]
pub enum JsonValue {
    Null,
    Bool(bool),
    Number(String),
    Str(String),
    Array(Vec<JsonValue>),
    Object(Vec<(String, JsonValue)>),
}

/// The parts of a dotted key, empty parts included (`str::split('.')`).
pub open spec fn dot_parts(s: Seq<char>) -> Seq<Seq<char>>
    decreases s.len(),
{
    let k = first_index_of(s, '.');
    if k >= s.len() {
        seq![s]
    } else {
        proof {
            lemma_first_index_of_bounds(s, '.');
        }
        seq![s.take(k)] + dot_parts(s.skip(k + 1))
    }
}

/// The value of the first entry named `name`.
pub open spec fn entry_value(es: Seq<(String, JsonValue)>, name: Seq<char>) -> Option<JsonValue>
    decreases es.len(),
{
    if es.len() == 0 {
        None
    } else if es[0].0@ == name {
        Some(es[0].1)
    } else {
        entry_value(es.drop_first(), name)
    }
}

/// The member `name` of an object (nothing for other values).
pub open spec fn member(v: JsonValue, name: Seq<char>) -> Option<JsonValue> {
    match v {
        JsonValue::Object(es) => entry_value(es@, name),
        _ => None,
    }
}

/// The value reached from `v` along the member names of `path`.
pub open spec fn lookup(v: JsonValue, path: Seq<Seq<char>>) -> Option<JsonValue>
    decreases path.len(),
{
    if path.len() == 0 {
        Some(v)
    } else {
        match member(v, path[0]) {
            Some(w) => lookup(w, path.drop_first()),
            None => None,
        }
    }
}

/// A string value's text, empty for other values.
pub open spec fn str_or_empty(v: JsonValue) -> Seq<char> {
    match v {
        JsonValue::Str(s) => s@,
        _ => Seq::empty(),
    }
}

/// A setting as text: strings as they are, numbers and booleans as
/// written, arrays as `[a, b]`; nothing for objects and null.
pub open spec fn rendered(v: JsonValue) -> Option<Seq<char>> {
    match v {
        JsonValue::Str(s) => Some(s@),
        JsonValue::Number(n) => Some(n@),
        JsonValue::Bool(b) => Some(if b { "true"@ } else { "false"@ }),
        JsonValue::Array(items) => Some("["@ + join(items@.map_values(|x: JsonValue| str_or_empty(x)), ", "@) + "]"@),
        _ => None,
    }
}

/// The setting a dotted key names in a configuration document: a field of
/// the project, architecture, entropy or quality section (at any depth), or
/// a custom entry.
pub open spec fn setting_value(doc: JsonValue, key: Seq<char>) -> Option<Seq<char>> {
    let ps = dot_parts(key);
    let sec = ps[0];
    if sec == "custom"@ {
        if ps.len() > 1 {
            match lookup(doc, seq![sec, ps[1]]) {
                Some(JsonValue::Str(s)) => Some(s@),
                _ => None,
            }
        } else {
            None
        }
    } else if sec == "project"@ || sec == "architecture"@ || sec == "entropy"@ || sec == "quality"@ {
        if ps.len() == 1 {
            None
        } else {
            match lookup(doc, ps) {
                Some(v) => rendered(v),
                None => None,
            }
        }
    } else {
        None
    }
}

pub open spec fn opt_view(o: Option<String>) -> Option<Seq<char>> {
    match o {
        Some(s) => Some(s@),
        None => None,
    }
}

/// The parts of a dotted key.
fn split_dots(key: &str) -> (r: Vec<String>)
    ensures
        string_views(r@) == dot_parts(key@),
        r@.len() >= 1,
{
    let v = to_chars(key);
    let mut out: Vec<String> = Vec::new();
    let mut start: usize = 0;
    assert(v@.skip(0) =~= v@);
    assert(string_views(out@) =~= Seq::<Seq<char>>::empty());
    loop
        invariant
            v@ == key@,
            start <= v@.len(),
            dot_parts(key@) == string_views(out@) + dot_parts(v@.skip(start as int)),
        decreases v@.len() - start,
    {
        let k = find_char_from(v.as_slice(), '.', start);
        let ghost t = v@.skip(start as int);
        proof {
            lemma_first_index_of_bounds(t, '.');
        }
        let part = from_char_range(v.as_slice(), start, k);
        let ghost before = string_views(out@);
        assert(part@ =~= t.take(first_index_of(t, '.')));
        out.push(part);
        assert(string_views(out@) =~= before.push(part@));
        if k >= v.len() {
            assert(dot_parts(t) == seq![t]);
            assert(t.take(first_index_of(t, '.')) =~= t);
            assert(before + seq![t] =~= before.push(part@));
            return out;
        }
        assert(t.skip(first_index_of(t, '.') + 1) =~= v@.skip(k + 1));
        assert(before + (seq![part@] + dot_parts(v@.skip(k + 1))) =~= before.push(part@) + dot_parts(v@.skip(k + 1)));
        start = k + 1;
    }
}

/// The member `name` of `v`, if `v` is an object that has one.
fn member_of<'a>(v: &'a JsonValue, name: &str) -> (r: Option<&'a JsonValue>)
    ensures
        match r {
            Some(w) => member(*v, name@) == Some(*w),
            None => member(*v, name@) is None,
        },
{
    match v {
        JsonValue::Object(es) => {
            let mut i: usize = 0;
            assert(es@.skip(0) =~= es@);
            while i < es.len()
                invariant
                    i <= es@.len(),
                    *v == JsonValue::Object(*es),
                    entry_value(es@, name@) == entry_value(es@.skip(i as int), name@),
                decreases es@.len() - i,
            {
                assert(es@.skip(i as int)[0] == es@[i as int]);
                if str_eq(es[i].0.as_str(), name) {
                    assert(entry_value(es@.skip(i as int), name@) == Some(es@[i as int].1));
                    assert(entry_value(es@, name@) == Some(es@[i as int].1));
                    assert(*v == JsonValue::Object(*es));
                    assert(member(*v, name@) == Some(es@[i as int].1));
                    return Some(&es[i].1);
                }
                assert(es@.skip(i as int).drop_first() =~= es@.skip(i + 1));
                i = i + 1;
            }
            None
        },
        _ => None,
    }
}

fn render(v: &JsonValue) -> (r: Option<String>)
    ensures
        opt_view(r) == rendered(*v),
{
    match v {
        JsonValue::Str(s) => Some(s.clone()),
        JsonValue::Number(n) => Some(n.clone()),
        JsonValue::Bool(b) => Some(if *b { owned("true") } else { owned("false") }),
        JsonValue::Array(items) => {
            let mut texts: Vec<String> = Vec::new();
            let ghost iv = items@.map_values(|x: JsonValue| str_or_empty(x));
            for i in 0..items.len()
                invariant
                    iv == items@.map_values(|x: JsonValue| str_or_empty(x)),
                    string_views(texts@) == iv.take(i as int),
            {
                let t = match &items[i] {
                    JsonValue::Str(s) => s.clone(),
                    _ => String::new(),
                };
                assert(iv[i as int] == str_or_empty(items@[i as int]));
                assert(t@ == iv[i as int]);
                let ghost before = string_views(texts@);
                texts.push(t);
                assert(string_views(texts@) =~= before.push(t@));
                assert(iv.take(i + 1) =~= iv.take(i as int).push(iv[i as int]));
            }
            assert(iv.take(items@.len() as int) =~= iv);
            let mut o = owned("[");
            crate::text::push_join(&mut o, &texts, ", ");
            assert(texts@.map_values(|x: String| x@) == string_views(texts@));
            push_str(&mut o, "]");
            Some(o)
        },
        _ => None,
    }
}

/// Reads and writes settings of the configuration of the project rooted
/// at `root`.
pub struct ConfigService {
    root: String,
}

/// The configuration file of a project: `cell.toml` in its root.
pub open spec fn config_file(root: Seq<char>) -> Seq<char> {
    if root.len() == 0 {
        "cell.toml"@
    } else if root.last() == '/' {
        root + "cell.toml"@
    } else {
        root + "/cell.toml"@
    }
}

/// The sections of a configuration.
pub open spec fn known_section(s: Seq<char>) -> bool {
    s == "project"@ || s == "architecture"@ || s == "entropy"@ || s == "quality"@ || s == "custom"@
}

/// Fields of a section that hold numbers, flags, lists or tables, so that
/// a text cannot be stored in them.
pub open spec fn typed_field(sec: Seq<char>, f: Seq<char>) -> bool {
    ||| sec == "architecture"@ && (f == "layers"@ || f == "strict_mode"@ || f == "allowed_cross_layer"@)
    ||| sec == "entropy"@ && (f == "warning_threshold"@ || f == "critical_threshold"@ || f == "keep_history_days"@
        || f == "dimension_weights"@ || f == "dimension_thresholds"@ || f == "exclude_paths"@ || f == "complexity"@)
    ||| sec == "quality"@ && (f == "min_test_coverage"@ || f == "max_file_lines"@ || f == "max_function_lines"@
        || f == "max_cyclomatic_complexity"@)
}

/// Fields that hold text: those of the project section, and any custom entry.
pub open spec fn text_field(sec: Seq<char>, f: Seq<char>) -> bool {
    sec == "custom"@ || (sec == "project"@ && (f == "name"@ || f == "version"@ || f == "description"@
        || f == "language"@))
}

/// `d` is `doc` with the setting `sec.field` replaced by the text `value`:
/// that lookup gives the text, and every lookup of another member, in the
/// section or elsewhere, gives what it gave before.
pub open spec fn setting_replaced(doc: JsonValue, d: JsonValue, sec: Seq<char>, field: Seq<char>, value: Seq<char>) -> bool {
    &&& lookup(d, seq![sec, field]) matches Some(JsonValue::Str(t)) && t@ == value
    &&& forall|p: Seq<Seq<char>>| p.len() > 0 && p[0] != sec ==> #[trigger] lookup(d, p) == lookup(doc, p)
    &&& forall|p: Seq<Seq<char>>| p.len() > 1 && p[0] == sec && p[1] != field ==> #[trigger] lookup(d, p) == lookup(doc, p)
}

/// The message refusing a text for a typed field.
pub open spec fn invalid_value_message(sec: Seq<char>, field: Seq<char>) -> Seq<char> {
    "Invalid value: "@ + sec + "."@ + field + " is not a text setting"@
}

/// What setting a field to a text does to a configuration document. The key
/// must have a section and a field, and the section must be one of the
/// configuration's; a typed field refuses a text, a text field takes it,
/// and a field the configuration does not have leaves the document as it is.
pub open spec fn set_outcome(doc: JsonValue, key: Seq<char>, value: Seq<char>, r: CellResult<JsonValue>) -> bool {
    let ps = dot_parts(key);
    if ps.len() < 2 {
        r matches Err(CellError::Config(m)) && m@ == "Invalid key format. Use: section.key"@
    } else if !known_section(ps[0]) {
        r matches Err(CellError::Config(m)) && m@ == "Unknown section: "@ + ps[0]
    } else if typed_field(ps[0], ps[1]) {
        r matches Err(CellError::Config(m)) && m@ == invalid_value_message(ps[0], ps[1])
    } else if text_field(ps[0], ps[1]) {
        r matches Ok(d) && setting_replaced(doc, d, ps[0], ps[1], value)
    } else {
        r == Ok::<JsonValue, CellError>(doc)
    }
}

proof fn lemma_entry_update(es: Seq<(String, JsonValue)>, i: int, x: (String, JsonValue), n: Seq<char>)
    requires
        0 <= i < es.len(),
        x.0@ == es[i].0@,
        n != x.0@,
    ensures
        entry_value(es.update(i, x), n) == entry_value(es, n),
    decreases i,
{
    assert(es.update(i, x)[0].0@ == es[0].0@);
    if i > 0 {
        assert(es.update(i, x)[0] == es[0]);
        assert(es.update(i, x).drop_first() =~= es.drop_first().update(i - 1, x));
        lemma_entry_update(es.drop_first(), i - 1, x, n);
    } else {
        assert(es.update(i, x).drop_first() =~= es.drop_first());
    }
}

proof fn lemma_entry_push(es: Seq<(String, JsonValue)>, x: (String, JsonValue), n: Seq<char>)
    requires
        n != x.0@,
    ensures
        entry_value(es.push(x), n) == entry_value(es, n),
    decreases es.len(),
{
    if es.len() > 0 {
        assert(es.push(x)[0] == es[0]);
        assert(es.push(x).drop_first() =~= es.drop_first().push(x));
        lemma_entry_push(es.drop_first(), x, n);
    } else {
        assert(es.push(x)[0] == x);
        assert(es.push(x).drop_first() =~= Seq::<(String, JsonValue)>::empty());
        assert(entry_value(Seq::<(String, JsonValue)>::empty(), n) is None);
        assert(entry_value(es.push(x), n) == entry_value(es.push(x).drop_first(), n));
    }
}

/// `es` with the entry `name` set to `v`.
fn put_entry(es: &mut Vec<(String, JsonValue)>, name: &str, v: JsonValue)
    ensures
        entry_value(final(es)@, name@) == Some(v),
        forall|n: Seq<char>| n != name@ ==> #[trigger] entry_value(final(es)@, n) == entry_value(old(es)@, n),
{
    let mut i: usize = 0;
    while i < es.len()
        invariant
            i <= es@.len(),
            forall|j: int| 0 <= j < i ==> (#[trigger] es@[j]).0@ != name@,
        ensures
            i <= es@.len(),
            forall|j: int| 0 <= j < i ==> (#[trigger] es@[j]).0@ != name@,
            i < es@.len() ==> es@[i as int].0@ == name@,
        decreases es@.len() - i,
    {
        if str_eq(es[i].0.as_str(), name) {
            break;
        }
        i = i + 1;
    }
    let ghost n = name@;
    if i < es.len() {
        let ghost before = es@;
        let (k, _) = es.remove(i);
        let ghost x = (k, v);
        es.insert(i, (k, v));
        proof {
            assert(es@ =~= before.update(i as int, x));
            assert forall|j: int| 0 <= j < i implies (#[trigger] es@[j]).0@ != n by {
                assert(es@[j] == before[j]);
            }
            lemma_entry_at(es@, n, i as int);
            assert forall|m: Seq<char>| m != n implies #[trigger] entry_value(es@, m) == entry_value(before, m) by {
                lemma_entry_update(before, i as int, x, m);
            }
        }
    } else {
        let ghost before = es@;
        let e = (owned(name), v);
        let ghost x = e;
        es.push(e);
        proof {
            assert forall|j: int| 0 <= j < es@.len() - 1 implies (#[trigger] es@[j]).0@ != n by {
                assert(es@[j] == before[j]);
            }
            lemma_entry_at(es@, n, (es@.len() - 1) as int);
            assert forall|m: Seq<char>| m != n implies #[trigger] entry_value(es@, m) == entry_value(before, m) by {
                lemma_entry_push(before, x, m);
            }
        }
    }
}

proof fn lemma_entry_at(es: Seq<(String, JsonValue)>, n: Seq<char>, i: int)
    requires
        0 <= i < es.len(),
        es[i].0@ == n,
        forall|j: int| 0 <= j < i ==> (#[trigger] es[j]).0@ != n,
    ensures
        entry_value(es, n) == Some(es[i].1),
    decreases i,
{
    if i > 0 {
        assert forall|j: int| 0 <= j < i - 1 implies (#[trigger] es.drop_first()[j]).0@ != n by {
            assert(es.drop_first()[j] == es[j + 1]);
        }
        lemma_entry_at(es.drop_first(), n, i - 1);
    }
}

impl ConfigService {
    /// The project root of the service.
    pub closed spec fn root_path(&self) -> Seq<char> {
        self.root@
    }

    /// A service for the project rooted at `root`.
    pub fn new(root: &str) -> (r: Self)
        ensures
            r.root_path() == root@,
    {
        ConfigService { root: owned(root) }
    }

    /// The configuration file: `cell.toml` in the project root.
    pub fn config_path(&self) -> (r: String)
        ensures
            r@ == config_file(self.root_path()),
    {
        let c = to_chars(self.root.as_str());
        if c.len() == 0 {
            return owned("cell.toml");
        }
        let mut r = self.root.clone();
        if c[c.len() - 1] == '/' {
            push_str(&mut r, "cell.toml");
        } else {
            push_str(&mut r, "/cell.toml");
        }
        r
    }

    /// The setting named by a dotted key in the configuration document.
    pub fn get(&self, doc: &JsonValue, key: &str) -> (r: Option<String>)
        ensures
            opt_view(r) == setting_value(*doc, key@),
    {
        let ps = split_dots(key);
        let ghost pv = string_views(ps@);
        assert(pv[0] == ps@[0]@);
        let sec = ps[0].as_str();
        if str_eq(sec, "custom") {
            if ps.len() > 1 {
                assert(pv[1] == ps@[1]@);
                let ghost path = seq![pv[0], pv[1]];
                assert(path[0] == pv[0]);
                assert(path.drop_first() =~= seq![pv[1]]);
                assert(seq![pv[1]][0] == pv[1]);
                assert(seq![pv[1]].drop_first() =~= Seq::<Seq<char>>::empty());
                let s = match member_of(doc, sec) {
                    Some(s) => s,
                    None => { return None; },
                };
                assert(lookup(*doc, path) == lookup(*s, seq![pv[1]]));
                let e = match member_of(s, ps[1].as_str()) {
                    Some(e) => e,
                    None => {
                        return None;
                    },
                };
                assert(lookup(*e, Seq::<Seq<char>>::empty()) == Some(*e));
                assert(lookup(*s, seq![pv[1]]) == lookup(*e, seq![pv[1]].drop_first()));
                assert(lookup(*doc, path) == Some(*e));
                return match e {
                    JsonValue::Str(t) => Some(t.clone()),
                    _ => None,
                };
            }
            return None;
        }
        if !(str_eq(sec, "project") || str_eq(sec, "architecture") || str_eq(sec, "entropy") || str_eq(sec, "quality")) {
            return None;
        }
        if ps.len() == 1 {
            return None;
        }
        let mut cur: &JsonValue = doc;
        let mut i: usize = 0;
        assert(pv.skip(0) =~= pv);
        assert(setting_value(*doc, key@) == match lookup(*doc, pv) {
            Some(v) => rendered(v),
            None => None,
        });
        while i < ps.len()
            invariant
                i <= ps@.len(),
                pv == string_views(ps@),
                lookup(*doc, pv) == lookup(*cur, pv.skip(i as int)),
                setting_value(*doc, key@) == match lookup(*doc, pv) {
                    Some(v) => rendered(v),
                    None => None,
                },
            decreases ps@.len() - i,
        {
            let ghost t = pv.skip(i as int);
            assert(t[0] == ps@[i as int]@);
            assert(t.drop_first() =~= pv.skip(i + 1));
            match member_of(cur, ps[i].as_str()) {
                Some(w) => {
                    cur = w;
                },
                None => {
                    return None;
                },
            }
            i = i + 1;
        }
        assert(pv.skip(ps@.len() as int) =~= Seq::<Seq<char>>::empty());
        render(cur)
    }

    /// The configuration document with a `section.field` setting set to a
    /// text. A key without a field, a section the configuration does not
    /// have, and a field that holds no text are refused; a field the section
    /// does not have leaves the document as it is.
    pub fn set(&self, doc: JsonValue, key: &str, value: &str) -> (r: CellResult<JsonValue>)
        ensures
            set_outcome(doc, key@, value@, r),
    {
        let ps = split_dots(key);
        let ghost pv = string_views(ps@);
        if ps.len() < 2 {
            return Err(CellError::Config(owned("Invalid key format. Use: section.key")));
        }
        assert(pv[0] == ps@[0]@ && pv[1] == ps@[1]@);
        let section = ps[0].as_str();
        let field = ps[1].as_str();
        if !is_known_section(section) {
            let mut m = owned("Unknown section: ");
            push_str(&mut m, section);
            return Err(CellError::Config(m));
        }
        if is_typed_field(section, field) {
            let mut m = owned("Invalid value: ");
            push_str(&mut m, section);
            push_str(&mut m, ".");
            push_str(&mut m, field);
            push_str(&mut m, " is not a text setting");
            return Err(CellError::Config(m));
        }
        if !is_text_field(section, field) {
            return Ok(doc);
        }
        Ok(with_setting(doc, section, field, value))
    }
}

fn is_known_section(s: &str) -> (r: bool)
    ensures
        r == known_section(s@),
{
    str_eq(s, "project") || str_eq(s, "architecture") || str_eq(s, "entropy") || str_eq(s, "quality")
        || str_eq(s, "custom")
}

fn is_typed_field(sec: &str, f: &str) -> (r: bool)
    ensures
        r == typed_field(sec@, f@),
{
    (str_eq(sec, "architecture") && (str_eq(f, "layers") || str_eq(f, "strict_mode") || str_eq(f, "allowed_cross_layer")))
        || (str_eq(sec, "entropy") && (str_eq(f, "warning_threshold") || str_eq(f, "critical_threshold")
        || str_eq(f, "keep_history_days") || str_eq(f, "dimension_weights") || str_eq(f, "dimension_thresholds")
        || str_eq(f, "exclude_paths") || str_eq(f, "complexity")))
        || (str_eq(sec, "quality") && (str_eq(f, "min_test_coverage") || str_eq(f, "max_file_lines")
        || str_eq(f, "max_function_lines") || str_eq(f, "max_cyclomatic_complexity")))
}

fn is_text_field(sec: &str, f: &str) -> (r: bool)
    ensures
        r == text_field(sec@, f@),
{
    str_eq(sec, "custom") || (str_eq(sec, "project") && (str_eq(f, "name") || str_eq(f, "version")
        || str_eq(f, "description") || str_eq(f, "language")))
}

/// `doc` with `sec.field` set to the text `value`: the section is created
/// (or a section that is no table replaced) when needed, and every other
/// member is kept where it was.
fn with_setting(doc: JsonValue, sec: &str, field: &str, value: &str) -> (d: JsonValue)
    ensures
        setting_replaced(doc, d, sec@, field@, value@),
{
    let ghost doc0 = doc;
    let mut entries: Vec<(String, JsonValue)> = match doc {
        JsonValue::Object(es) => es,
        _ => Vec::new(),
    };
    let ghost es0 = entries@;
    assert forall|n: Seq<char>| #[trigger] member(doc0, n) == entry_value(es0, n) by {
        if !(doc0 is Object) {
            assert(es0.len() == 0);
        }
    }
    let mut i: usize = 0;
    while i < entries.len()
        invariant
            i <= entries@.len(),
            entries@ == es0,
            forall|j: int| 0 <= j < i ==> (#[trigger] es0[j]).0@ != sec@,
        ensures
            i <= entries@.len(),
            entries@ == es0,
            forall|j: int| 0 <= j < i ==> (#[trigger] es0[j]).0@ != sec@,
            i < entries@.len() ==> es0[i as int].0@ == sec@,
        decreases entries@.len() - i,
    {
        if str_eq(entries[i].0.as_str(), sec) {
            break;
        }
        i = i + 1;
    }
    let text = JsonValue::Str(owned(value));
    let ghost tv = text;
    let mut fields: Vec<(String, JsonValue)> = Vec::new();
    let ghost old_fields: Seq<(String, JsonValue)>;
    if i < entries.len() {
        proof {
            lemma_entry_at(es0, sec@, i as int);
        }
        let (k, sv) = entries.remove(i);
        assert(member(doc0, sec@) == Some(sv));
        fields = match sv {
            JsonValue::Object(f) => f,
            _ => Vec::new(),
        };
        proof {
            old_fields = fields@;
        }
        put_entry(&mut fields, field, text);
        let ghost new_sec = JsonValue::Object(fields);
        let ghost x = (k, new_sec);
        entries.insert(i, (k, JsonValue::Object(fields)));
        proof {
            assert(entries@ =~= es0.update(i as int, x));
            assert forall|j: int| 0 <= j < i implies (#[trigger] entries@[j]).0@ != sec@ by {
                assert(entries@[j] == es0[j]);
            }
            lemma_entry_at(entries@, sec@, i as int);
            assert forall|n: Seq<char>| n != sec@ implies #[trigger] entry_value(entries@, n) == entry_value(es0, n) by {
                lemma_entry_update(es0, i as int, x, n);
            }
        }
    } else {
        proof {
            old_fields = fields@;
            assert(member(doc0, sec@) is None) by {
                if i < es0.len() {
                } else {
                    assert forall|j: int| 0 <= j < es0.len() implies (#[trigger] es0[j]).0@ != sec@ by {}
                    lemma_no_entry(es0, sec@);
                }
            }
        }
        put_entry(&mut fields, field, text);
        let ghost new_sec = JsonValue::Object(fields);
        let e = (owned(sec), JsonValue::Object(fields));
        let ghost x = e;
        entries.push(e);
        proof {
            assert forall|j: int| 0 <= j < entries@.len() - 1 implies (#[trigger] entries@[j]).0@ != sec@ by {
                assert(entries@[j] == es0[j]);
            }
            lemma_entry_at(entries@, sec@, (entries@.len() - 1) as int);
            assert forall|n: Seq<char>| n != sec@ implies #[trigger] entry_value(entries@, n) == entry_value(es0, n) by {
                lemma_entry_push(es0, x, n);
            }
        }
    }
    let d = JsonValue::Object(entries);
    proof {
        let new_sec = entry_value(entries@, sec@)->Some_0;
        let nf = match new_sec { JsonValue::Object(f) => f@, _ => Seq::empty() };
        assert(new_sec is Object);
        assert(member(d, sec@) == Some(new_sec));
        assert forall|p: Seq<Seq<char>>| p.len() > 0 && p[0] != sec@ implies #[trigger] lookup(d, p) == lookup(doc0, p) by {
            assert(member(d, p[0]) == member(doc0, p[0]));
        }
        let fpath = seq![sec@, field@];
        assert(fpath[0] == sec@);
        assert(fpath.drop_first() =~= seq![field@]);
        assert(lookup(d, fpath) == lookup(new_sec, seq![field@]));
        assert(seq![field@][0] == field@);
        assert(seq![field@].drop_first() =~= Seq::<Seq<char>>::empty());
        assert(member(new_sec, field@) == Some(tv));
        assert(lookup(tv, Seq::<Seq<char>>::empty()) == Some(tv));
        assert forall|p: Seq<Seq<char>>| p.len() > 1 && p[0] == sec@ && p[1] != field@ implies #[trigger] lookup(d, p) == lookup(doc0, p) by {
            let rest = p.drop_first();
            assert(rest[0] == p[1]);
            assert(lookup(d, p) == lookup(new_sec, rest));
            assert(member(new_sec, p[1]) == entry_value(old_fields, p[1]));
            match member(doc0, sec@) {
                Some(w) => {
                    assert(lookup(doc0, p) == lookup(w, rest));
                    match w {
                        JsonValue::Object(f) => {
                            assert(old_fields == f@);
                        },
                        _ => {
                            assert(old_fields.len() == 0);
                            assert(member(w, p[1]) is None);
                        },
                    }
                },
                None => {
                    assert(old_fields.len() == 0);
                },
            }
        }
    }
    d
}

proof fn lemma_no_entry(es: Seq<(String, JsonValue)>, n: Seq<char>)
    requires
        forall|j: int| 0 <= j < es.len() ==> (#[trigger] es[j]).0@ != n,
    ensures
        entry_value(es, n) is None,
    decreases es.len(),
{
    if es.len() > 0 {
        assert forall|j: int| 0 <= j < es.drop_first().len() implies (#[trigger] es.drop_first()[j]).0@ != n by {
            assert(es.drop_first()[j] == es[j + 1]);
        }
        lemma_no_entry(es.drop_first(), n);
    }
}

/// Setting a text field and reading it back gives the text that was set,
/// and every setting whose key differs in its section or field reads as
/// before.
pub proof fn law_get_after_set(doc: JsonValue, key: Seq<char>, value: Seq<char>, r: CellResult<JsonValue>)
    requires
        set_outcome(doc, key, value, r),
        dot_parts(key).len() == 2,
        text_field(dot_parts(key)[0], dot_parts(key)[1]),
    ensures
        r matches Ok(d) && setting_value(d, key) == Some(value),
        r matches Ok(d) && forall|other: Seq<char>|
            !(dot_parts(other).len() >= 2 && dot_parts(other)[0] == dot_parts(key)[0] && dot_parts(other)[1] == dot_parts(key)[1])
                ==> #[trigger] setting_value(d, other) == setting_value(doc, other),
{
    let ps = dot_parts(key);
    assert(ps =~= seq![ps[0], ps[1]]);
    reveal_strlit("custom");
    reveal_strlit("project");
    reveal_strlit("architecture");
    reveal_strlit("entropy");
    reveal_strlit("quality");
    assert("custom"@.len() == 6 && "project"@.len() == 7 && "architecture"@.len() == 12);
    assert("entropy"@.len() == 7 && "quality"@.len() == 7);
    assert("project"@[0] == 'p' && "entropy"@[0] == 'e' && "quality"@[0] == 'q');
    assert(known_section(ps[0]));
    assert(!typed_field(ps[0], ps[1]));
    let d = r->Ok_0;
    assert(setting_replaced(doc, d, ps[0], ps[1], value));
    assert forall|other: Seq<char>|
        !(dot_parts(other).len() >= 2 && dot_parts(other)[0] == ps[0] && dot_parts(other)[1] == ps[1])
            implies #[trigger] setting_value(d, other) == setting_value(doc, other) by {
        let qs = dot_parts(other);
        if qs.len() >= 2 {
            let two = seq![qs[0], qs[1]];
            assert(two[0] == qs[0] && two[1] == qs[1]);
            assert(lookup(d, two) == lookup(doc, two));
            assert(lookup(d, qs) == lookup(doc, qs));
        }
    }
}

} // verus!
