//! Configuration per environment: the registry of environments, the
//! editing of an environment's TOML file, and the drift between two
//! environments.
use vstd::prelude::*;
use crate::text::{owned, push_str, push_chars, decimal, trim, starts_with, to_chars, trim_chars, begins, str_eq,
    first_index_of, str_starts_with};
use crate::errors::{CellError, CellResult};

verus! {

/// An environment and its configuration values, each key once.
#[derive(Debug, Clone)]
pub struct EnvironmentConfig {
    pub name: String,
    pub base_path: String,
    pub config_values: Vec<(String, String)>,
    pub created_at: String,
    pub last_modified: String,
}

/// A deployment environment.
#[derive(Debug, Clone, PartialEq, Eq)]
pub enum Environment {
    Dev,
    Staging,
    Prod,
    Custom(String),
}

pub open spec fn env_name(e: Environment) -> Seq<char> {
    match e {
        Environment::Dev => "dev"@,
        Environment::Staging => "staging"@,
        Environment::Prod => "prod"@,
        Environment::Custom(s) => s@,
    }
}

pub open spec fn env_label(e: Environment) -> Seq<char> {
    match e {
        Environment::Dev => "开发"@,
        Environment::Staging => "预发布"@,
        Environment::Prod => "生产"@,
        Environment::Custom(s) => s@,
    }
}

impl Environment {
    pub fn name(&self) -> (r: &str)
        ensures
            r@ == env_name(*self),
    {
        match self {
            Environment::Dev => "dev",
            Environment::Staging => "staging",
            Environment::Prod => "prod",
            Environment::Custom(s) => s.as_str(),
        }
    }

    pub fn label(&self) -> (r: &str)
        ensures
            r@ == env_label(*self),
    {
        match self {
            Environment::Dev => "开发",
            Environment::Staging => "预发布",
            Environment::Prod => "生产",
            Environment::Custom(s) => s.as_str(),
        }
    }
}

/// How a key differs between two environments.
#[derive(Debug, Clone, PartialEq, Eq, Copy, Structural)]
pub enum DiffType {
    Added,
    Removed,
    Changed,
    Same,
}

pub open spec fn diff_label(d: DiffType) -> Seq<char> {
    match d {
        DiffType::Added => "新增"@,
        DiffType::Removed => "删除"@,
        DiffType::Changed => "变更"@,
        DiffType::Same => "相同"@,
    }
}

impl DiffType {
    pub fn label(&self) -> (r: &'static str)
        ensures
            r@ == diff_label(*self),
    {
        match self {
            DiffType::Added => "新增",
            DiffType::Removed => "删除",
            DiffType::Changed => "变更",
            DiffType::Same => "相同",
        }
    }
}

/// One key compared between a base environment and another.
#[derive(Debug, Clone)]
pub struct ConfigDiff {
    pub key: String,
    pub base_value: Option<String>,
    pub env_value: Option<String>,
    pub diff_type: DiffType,
}

/// The comparison of two environments.
#[derive(Debug, Clone)]
pub struct DriftReport {
    pub base_env: String,
    pub target_env: String,
    pub diffs: Vec<ConfigDiff>,
    pub drift_count: usize,
    pub generated_at: String,
}

pub type Entries = Seq<(Seq<char>, Seq<char>)>;

pub open spec fn entries(v: Seq<(String, String)>) -> Entries {
    v.map_values(|p: (String, String)| (p.0@, p.1@))
}

/// The value of `key`, if any.
pub open spec fn lookup(es: Entries, key: Seq<char>) -> Option<Seq<char>>
    decreases es.len(),
{
    if es.len() == 0 {
        None
    } else if es.last().0 == key {
        Some(es.last().1)
    } else {
        lookup(es.drop_last(), key)
    }
}

/// Every key occurs once.
pub open spec fn unique_keys(es: Entries) -> bool {
    forall|i: int, j: int| 0 <= i < j < es.len() ==> es[i].0 != es[j].0
}

/// The default file of a new environment.
pub open spec fn default_env_file(e: Environment) -> Seq<char> {
    let prod = env_name(e) == "prod"@;
    "# "@ + env_label(e) + " 环境配置\n# Cell Architecture Multi-Environment Config\n\n[entropy]\nthreshold = "@
        + (if prod { "0.3"@ } else { "0.5"@ }) + "\n\n[architecture]\nstrict = "@ + (if prod { "true"@ } else { "false"@ })
        + "\n"@
}

/// The section a dotted key belongs to: its part before the first dot.
pub open spec fn key_section(key: Seq<char>) -> Seq<char> {
    key.take(first_index_of(key, '.'))
}

pub open spec fn header(prefix: Seq<char>) -> Seq<char> {
    "["@ + prefix + "]"@
}

/// Line `i` opens the section.
pub open spec fn is_header(ls: Seq<Seq<char>>, prefix: Seq<char>, i: int) -> bool {
    starts_with(trim(ls[i]), header(prefix))
}

/// Line `i` ends the section once it is open: another header, a blank
/// line, or the last line.
pub open spec fn ends_section(ls: Seq<Seq<char>>, i: int) -> bool {
    starts_with(trim(ls[i]), "["@) || trim(ls[i]).len() == 0 || i == ls.len() - 1
}

/// The first line at or after `i`, with the section open before it, where
/// the key line goes.
pub open spec fn slot_from(ls: Seq<Seq<char>>, prefix: Seq<char>, i: int, open: bool) -> Option<int>
    decreases ls.len() - i,
{
    if i < 0 || i >= ls.len() {
        None
    } else if is_header(ls, prefix, i) {
        slot_from(ls, prefix, i + 1, true)
    } else if open && ends_section(ls, i) {
        Some(i)
    } else {
        slot_from(ls, prefix, i + 1, open)
    }
}

/// The lines of an environment file with `key = value` set: inserted in
/// its section, or in a new section at the end.
pub open spec fn with_key(ls: Seq<Seq<char>>, key: Seq<char>, value: Seq<char>) -> Seq<Seq<char>> {
    let line = key + " = "@ + value;
    match slot_from(ls, key_section(key), 0, false) {
        Some(i) => ls.insert(i, line),
        None => ls.push(header(key_section(key))).push(line),
    }
}

pub open spec fn strings(v: Seq<String>) -> Seq<Seq<char>> {
    v.map_values(|s: String| s@)
}

fn section_of(key: &str) -> (r: Vec<char>)
    ensures
        r@ == key_section(key@),
{
    let k = to_chars(key);
    let i = crate::text::find_char_from(k.as_slice(), '.', 0);
    assert(k@.skip(0) =~= k@);
    let mut r: Vec<char> = Vec::new();
    for j in 0..i
        invariant
            i <= k@.len(),
            r@ == k@.take(j as int),
    {
        r.push(k[j]);
        assert(k@.take(j + 1) =~= k@.take(j as int).push(k@[j as int]));
    }
    r
}

fn trimmed(s: &str) -> (r: Vec<char>)
    ensures
        r@ == trim(s@),
{
    let c = to_chars(s);
    trim_chars(c.as_slice())
}

/// Where the key line goes in `lines`.
fn find_slot(lines: &Vec<String>, prefix: &Vec<char>) -> (r: Option<usize>)
    ensures
        match r {
            Some(i) => slot_from(strings(lines@), prefix@, 0, false) == Some(i as int) && i < lines@.len(),
            None => slot_from(strings(lines@), prefix@, 0, false) is None,
        },
{
    let ghost ls = strings(lines@);
    let mut hdr: Vec<char> = Vec::new();
    hdr.push('[');
    for j in 0..prefix.len()
        invariant
            hdr@ == seq!['['] + prefix@.take(j as int),
    {
        hdr.push(prefix[j]);
        assert(prefix@.take(j + 1) =~= prefix@.take(j as int).push(prefix@[j as int]));
    }
    hdr.push(']');
    proof {
        reveal_strlit("[");
        reveal_strlit("]");
        assert(prefix@.take(prefix@.len() as int) =~= prefix@);
    }
    assert(hdr@ =~= header(prefix@));
    let n = lines.len();
    let mut open = false;
    let mut i: usize = 0;
    while i < n
        invariant
            n == lines@.len(),
            ls == strings(lines@),
            hdr@ == header(prefix@),
            i <= n,
            slot_from(ls, prefix@, 0, false) == slot_from(ls, prefix@, i as int, open),
        decreases n - i,
    {
        let t = trimmed(lines[i].as_str());
        assert(ls[i as int] == lines@[i as int]@);
        if crate::text::starts_with_chars(t.as_slice(), hdr.as_slice()) {
            open = true;
        } else if open && (begins(t.as_slice(), "[") || t.len() == 0 || i == n - 1) {
            return Some(i);
        }
        i = i + 1;
    }
    None
}

/// Whether the entries hold `key`, and where.
fn key_index(es: &Vec<(String, String)>, key: &str) -> (r: Option<usize>)
    ensures
        match r {
            Some(i) => i < es@.len() && es@[i as int].0@ == key@ && forall|j: int| i < j < es@.len() ==> es@[j].0@ != key@,
            None => forall|j: int| 0 <= j < es@.len() ==> es@[j].0@ != key@,
        },
{
    let n = es.len();
    let mut i = n;
    while i > 0
        invariant
            i <= n,
            n == es@.len(),
            forall|j: int| i <= j < n ==> es@[j].0@ != key@,
        decreases i,
    {
        if str_eq(es[i - 1].0.as_str(), key) {
            return Some(i - 1);
        }
        i = i - 1;
    }
    None
}

proof fn lemma_lookup_at(es: Entries, i: int, key: Seq<char>)
    requires
        0 <= i < es.len(),
        es[i].0 == key,
        forall|j: int| i < j < es.len() ==> es[j].0 != key,
    ensures
        lookup(es, key) == Some(es[i].1),
    decreases es.len(),
{
    if i < es.len() - 1 {
        lemma_lookup_at(es.drop_last(), i, key);
    }
}

proof fn lemma_lookup_none(es: Entries, key: Seq<char>)
    requires
        forall|j: int| 0 <= j < es.len() ==> es[j].0 != key,
    ensures
        lookup(es, key) is None,
    decreases es.len(),
{
    if es.len() > 0 {
        lemma_lookup_none(es.drop_last(), key);
    }
}

/// The value of `key` among the entries.
pub fn value_of(es: &Vec<(String, String)>, key: &str) -> (r: Option<String>)
    ensures
        match r {
            Some(v) => lookup(entries(es@), key@) == Some(v@),
            None => lookup(entries(es@), key@) is None,
        },
{
    match key_index(es, key) {
        Some(i) => {
            proof {
                lemma_lookup_at(entries(es@), i as int, key@);
            }
            Some(owned(es[i].1.as_str()))
        },
        None => {
            proof {
                lemma_lookup_none(entries(es@), key@);
            }
            None
        },
    }
}

/// The entries with `key` set to `value`.
pub open spec fn set_entry(es: Entries, key: Seq<char>, value: Seq<char>) -> Entries {
    if exists|i: int| 0 <= i < es.len() && es[i].0 == key {
        es.update(choose|i: int| 0 <= i < es.len() && es[i].0 == key, (key, value))
    } else {
        es.push((key, value))
    }
}

fn put_entry(es: &mut Vec<(String, String)>, key: &str, value: &str)
    requires
        unique_keys(entries(old(es)@)),
    ensures
        unique_keys(entries(final(es)@)),
        entries(final(es)@) == set_entry(entries(old(es)@), key@, value@),
{
    let ghost e0 = entries(es@);
    match key_index(es, key) {
        Some(i) => {
            es.set(i, (owned(key), owned(value)));
            proof {
                let c = choose|j: int| 0 <= j < e0.len() && e0[j].0 == key@;
                assert(e0[i as int].0 == key@);
                assert(c == i as int) by {
                    if c != i as int {
                        if c < i { assert(e0[c].0 != e0[i as int].0); } else { assert(e0[c].0 != e0[i as int].0); }
                    }
                }
                assert(entries(es@) =~= e0.update(i as int, (key@, value@)));
            }
        },
        None => {
            es.push((owned(key), owned(value)));
            proof {
                assert(entries(es@) =~= e0.push((key@, value@)));
                assert(forall|j: int| 0 <= j < e0.len() ==> e0[j].0 != key@);
            }
        },
    }
}

/// Position of the environment named `name`, if any.
pub open spec fn env_at(reg: Seq<EnvironmentConfig>, name: Seq<char>) -> Option<int> {
    if exists|i: int| 0 <= i < reg.len() && reg[i].name@ == name {
        Some(choose|i: int| 0 <= i < reg.len() && reg[i].name@ == name && forall|j: int| 0 <= j < i ==> reg[j].name@ != name)
    } else {
        None
    }
}

pub open spec fn not_found(name: Seq<char>) -> Seq<char> {
    "Environment '"@ + name + "' not found"@
}

/// Every environment's keys are unique.
pub open spec fn registry_ok(reg: Seq<EnvironmentConfig>) -> bool {
    forall|i: int| 0 <= i < reg.len() ==> unique_keys(entries((#[trigger] reg[i]).config_values@))
}

fn find_env(reg: &Vec<EnvironmentConfig>, name: &str) -> (r: Option<usize>)
    ensures
        match r {
            Some(i) => env_at(reg@, name@) == Some(i as int) && i < reg@.len() && reg@[i as int].name@ == name@,
            None => env_at(reg@, name@) is None,
        },
{
    let n = reg.len();
    let mut i: usize = 0;
    while i < n
        invariant
            n == reg@.len(),
            i <= n,
            forall|j: int| 0 <= j < i ==> reg@[j].name@ != name@,
        decreases n - i,
    {
        if str_eq(reg[i].name.as_str(), name) {
            proof {
                let c = choose|k: int| 0 <= k < reg@.len() && reg@[k].name@ == name@ && forall|j: int| 0 <= j < k ==> reg@[j].name@ != name@;
                assert(reg@[i as int].name@ == name@ && forall|j: int| 0 <= j < i ==> reg@[j].name@ != name@);
                assert(c == i as int) by {
                    if c < i as int {} else if c > i as int { assert(reg@[i as int].name@ != name@); }
                }
            }
            return Some(i);
        }
        i = i + 1;
    }
    None
}

fn copy_entries(es: &Vec<(String, String)>) -> (r: Vec<(String, String)>)
    ensures
        entries(r@) == entries(es@),
{
    let mut r: Vec<(String, String)> = Vec::new();
    for i in 0..es.len()
        invariant
            entries(r@) == entries(es@.take(i as int)),
    {
        let ghost before = r@;
        r.push((owned(es[i].0.as_str()), owned(es[i].1.as_str())));
        assert(entries(r@) =~= entries(before).push((es@[i as int].0@, es@[i as int].1@)));
        assert(es@.take(i + 1) =~= es@.take(i as int).push(es@[i as int]));
        assert(entries(es@.take(i + 1)) =~= entries(es@.take(i as int)).push((es@[i as int].0@, es@[i as int].1@)));
    }
    assert(es@.take(es@.len() as int) =~= es@);
    r
}

fn copy_env(e: &EnvironmentConfig) -> (r: EnvironmentConfig)
    ensures
        r.name@ == e.name@,
        r.base_path@ == e.base_path@,
        entries(r.config_values@) == entries(e.config_values@),
        r.created_at@ == e.created_at@,
        r.last_modified@ == e.last_modified@,
{
    EnvironmentConfig {
        name: owned(e.name.as_str()),
        base_path: owned(e.base_path.as_str()),
        config_values: copy_entries(&e.config_values),
        created_at: owned(e.created_at.as_str()),
        last_modified: owned(e.last_modified.as_str()),
    }
}

/// The diff of one key.
pub open spec fn diff_kind(b: Option<Seq<char>>, t: Option<Seq<char>>) -> DiffType {
    match (b, t) {
        (Some(_), None) => DiffType::Removed,
        (None, Some(_)) => DiffType::Added,
        (Some(x), Some(y)) => if x != y { DiffType::Changed } else { DiffType::Same },
        (None, None) => DiffType::Same,
    }
}

/// The keys only the target has, in its order.
pub open spec fn only_target(base: Entries, target: Entries) -> Seq<Seq<char>>
    decreases target.len(),
{
    if target.len() == 0 {
        Seq::empty()
    } else {
        only_target(base, target.drop_last()) + if lookup(base, target.last().0) is None {
            seq![target.last().0]
        } else {
            Seq::empty()
        }
    }
}

/// The keys compared: those of the base, then those only the target has.
pub open spec fn diff_keys(base: Entries, target: Entries) -> Seq<Seq<char>> {
    base.map_values(|p: (Seq<char>, Seq<char>)| p.0) + only_target(base, target)
}

pub open spec fn opt(o: Option<String>) -> Option<Seq<char>> {
    match o {
        Some(s) => Some(s@),
        None => None,
    }
}

pub open spec fn diff_ok(d: ConfigDiff, key: Seq<char>, base: Entries, target: Entries) -> bool {
    &&& d.key@ == key
    &&& opt(d.base_value) == lookup(base, key)
    &&& opt(d.env_value) == lookup(target, key)
    &&& d.diff_type == diff_kind(lookup(base, key), lookup(target, key))
}

pub open spec fn drift_count(ds: Seq<ConfigDiff>) -> nat
    decreases ds.len(),
{
    if ds.len() == 0 { 0 } else { drift_count(ds.drop_last()) + if ds.last().diff_type != DiffType::Same { 1nat } else { 0nat } }
}


fn make_diff(key: &str, base: &Vec<(String, String)>, target: &Vec<(String, String)>) -> (r: ConfigDiff)
    ensures
        diff_ok(r, key@, entries(base@), entries(target@)),
{
    let b = value_of(base, key);
    let t = value_of(target, key);
    let kind = match (&b, &t) {
        (Some(_), None) => DiffType::Removed,
        (None, Some(_)) => DiffType::Added,
        (Some(x), Some(y)) => if str_eq(x.as_str(), y.as_str()) { DiffType::Same } else { DiffType::Changed },
        (None, None) => DiffType::Same,
    };
    ConfigDiff { key: owned(key), base_value: b, env_value: t, diff_type: kind }
}

fn count_drift(ds: &Vec<ConfigDiff>) -> (r: usize)
    ensures
        r as nat == drift_count(ds@),
{
    let mut n: usize = 0;
    for i in 0..ds.len()
        invariant
            n as nat == drift_count(ds@.take(i as int)),
            n <= i,
    {
        assert(ds@.take(i + 1).drop_last() =~= ds@.take(i as int));
        if ds[i].diff_type != DiffType::Same {
            n = n + 1;
        }
    }
    assert(ds@.take(ds@.len() as int) =~= ds@);
    n
}

/// The diffs between two sets of entries, key by key.
pub fn diff_entries(base: &Vec<(String, String)>, target: &Vec<(String, String)>) -> (r: Vec<ConfigDiff>)
    ensures
        r@.len() == diff_keys(entries(base@), entries(target@)).len(),
        forall|k: int| 0 <= k < r@.len() ==> diff_ok(#[trigger] r@[k], diff_keys(entries(base@), entries(target@))[k],
            entries(base@), entries(target@)),
{
    let ghost b = entries(base@);
    let ghost t = entries(target@);
    let ghost bk = b.map_values(|p: (Seq<char>, Seq<char>)| p.0);
    let mut r: Vec<ConfigDiff> = Vec::new();
    for i in 0..base.len()
        invariant
            b == entries(base@),
            t == entries(target@),
            bk == b.map_values(|p: (Seq<char>, Seq<char>)| p.0),
            r@.len() == i,
            forall|k: int| 0 <= k < i ==> diff_ok(#[trigger] r@[k], bk[k], b, t),
    {
        r.push(make_diff(base[i].0.as_str(), base, target));
    }
    let m = base.len();
    for j in 0..target.len()
        invariant
            b == entries(base@),
            t == entries(target@),
            bk == b.map_values(|p: (Seq<char>, Seq<char>)| p.0),
            m == bk.len(),
            r@.len() == m + only_target(b, t.take(j as int)).len(),
            forall|k: int| 0 <= k < m ==> diff_ok(#[trigger] r@[k], bk[k], b, t),
            forall|k: int| m <= k < r@.len() ==> diff_ok(#[trigger] r@[k], only_target(b, t.take(j as int))[k - m], b, t),
    {
        assert(t.take(j + 1).drop_last() =~= t.take(j as int));
        assert(t.take(j + 1).last() == t[j as int]);
        let key = target[j].0.as_str();
        let found = value_of(base, key);
        let ghost before = only_target(b, t.take(j as int));
        if found.is_none() {
            r.push(make_diff(key, base, target));
            assert(only_target(b, t.take(j + 1)) =~= before.push(key@));
        } else {
            assert(only_target(b, t.take(j + 1)) =~= before);
        }
    }
    assert(t.take(t.len() as int) =~= t);
    proof {
        let keys = diff_keys(b, t);
        assert forall|k: int| 0 <= k < r@.len() implies diff_ok(#[trigger] r@[k], keys[k], b, t) by {
            if k < m {
                assert(keys[k] == bk[k]);
            } else {
                assert(keys[k] == only_target(b, t)[k - m]);
            }
        }
    }
    r
}

/// Keeps the registry of environments and edits their files.
pub struct MultiEnvConfigService;

impl MultiEnvConfigService {
    pub fn new() -> (r: Self) {
        MultiEnvConfigService
    }

    /// The file a new environment starts with, and its registry entry.
    pub fn create_environment(&self, env: &Environment, base_path: &str, now: &str) -> (r: (String, EnvironmentConfig))
        ensures
            r.0@ == default_env_file(*env),
            r.1.name@ == env_name(*env),
            r.1.base_path@ == base_path@,
            r.1.config_values@.len() == 0,
            r.1.created_at@ == now@,
            r.1.last_modified@ == now@,
    {
        let name = env.name();
        let prod = str_eq(name, "prod");
        let mut c = owned("# ");
        push_str(&mut c, env.label());
        push_str(&mut c, " 环境配置\n# Cell Architecture Multi-Environment Config\n\n[entropy]\nthreshold = ");
        push_str(&mut c, if prod { "0.3" } else { "0.5" });
        push_str(&mut c, "\n\n[architecture]\nstrict = ");
        push_str(&mut c, if prod { "true" } else { "false" });
        push_str(&mut c, "\n");
        let config = EnvironmentConfig {
            name: owned(name),
            base_path: owned(base_path),
            config_values: Vec::new(),
            created_at: owned(now),
            last_modified: owned(now),
        };
        (c, config)
    }

    /// The environments of the registry.
    pub fn list_environments(&self, registry: &Vec<EnvironmentConfig>) -> (r: CellResult<Vec<EnvironmentConfig>>)
        ensures
            r is Ok,
            r->Ok_0@.len() == registry@.len(),
            forall|i: int| 0 <= i < registry@.len() ==> (#[trigger] r->Ok_0@[i]).name@ == registry@[i].name@
                && entries(r->Ok_0@[i].config_values@) == entries(registry@[i].config_values@),
    {
        let mut out: Vec<EnvironmentConfig> = Vec::new();
        for i in 0..registry.len()
            invariant
                out@.len() == i,
                forall|k: int| 0 <= k < i ==> (#[trigger] out@[k]).name@ == registry@[k].name@
                    && entries(out@[k].config_values@) == entries(registry@[k].config_values@),
        {
            out.push(copy_env(&registry[i]));
        }
        Ok(out)
    }

    /// The environment named `env_name`.
    pub fn get_environment(&self, registry: &Vec<EnvironmentConfig>, env_name: &str) -> (r: CellResult<EnvironmentConfig>)
        ensures
            match env_at(registry@, env_name@) {
                Some(i) => r is Ok && r->Ok_0.name@ == env_name@
                    && entries(r->Ok_0.config_values@) == entries(registry@[i].config_values@),
                None => r matches Err(CellError::Config(m)) && m@ == not_found(env_name@),
            },
    {
        match find_env(registry, env_name) {
            Some(i) => Ok(copy_env(&registry[i])),
            None => {
                let mut m = owned("Environment '");
                push_str(&mut m, env_name);
                push_str(&mut m, "' not found");
                Err(CellError::Config(m))
            },
        }
    }

    /// The value of `key` in environment `env_name`.
    pub fn get_config(&self, registry: &Vec<EnvironmentConfig>, env_name: &str, key: &str) -> (r: CellResult<Option<String>>)
        ensures
            match env_at(registry@, env_name@) {
                Some(i) => r is Ok && opt(r->Ok_0) == lookup(entries(registry@[i].config_values@), key@),
                None => r matches Err(CellError::Config(m)) && m@ == not_found(env_name@),
            },
    {
        match find_env(registry, env_name) {
            Some(i) => Ok(value_of(&registry[i].config_values, key)),
            None => {
                let mut m = owned("Environment '");
                push_str(&mut m, env_name);
                push_str(&mut m, "' not found");
                Err(CellError::Config(m))
            },
        }
    }

    /// The lines of an environment file with `key = value` set.
    pub fn insert_config_line(&self, lines: Vec<String>, key: &str, value: &str) -> (r: Vec<String>)
        ensures
            strings(r@) == with_key(strings(lines@), key@, value@),
    {
        let prefix = section_of(key);
        let mut line = owned(key);
        push_str(&mut line, " = ");
        push_str(&mut line, value);
        let mut lines = lines;
        let ghost ls = strings(lines@);
        match find_slot(&lines, &prefix) {
            Some(i) => {
                lines.insert(i, line);
                assert(strings(lines@) =~= ls.insert(i as int, line@));
            },
            None => {
                let mut h = owned("[");
                push_chars(&mut h, prefix.as_slice());
                push_str(&mut h, "]");
                lines.push(h);
                lines.push(line);
                assert(strings(lines@) =~= ls.push(h@).push(line@));
            },
        }
        lines
    }

    /// Sets `key = value` in environment `env_name`: in the lines of its
    /// file, which must exist, and in its registry entries, stamped `now`.
    pub fn set_config(
        &self,
        registry: &mut Vec<EnvironmentConfig>,
        lines: Option<Vec<String>>,
        env_name: &str,
        key: &str,
        value: &str,
        now: &str,
    ) -> (r: CellResult<Vec<String>>)
        requires
            registry_ok(old(registry)@),
        ensures
            registry_ok(final(registry)@),
            final(registry)@.len() == old(registry)@.len(),
            match lines {
                None => (r matches Err(CellError::Config(m)) && m@ == not_found(env_name@))
                    && final(registry)@ == old(registry)@,
                Some(ls) => r is Ok && strings(r->Ok_0@) == with_key(strings(ls@), key@, value@)
                    && forall|i: int| 0 <= i < old(registry)@.len() ==> {
                        let e = old(registry)@[i];
                        let f = #[trigger] final(registry)@[i];
                        &&& f.name == e.name
                        &&& entries(f.config_values@) == if e.name@ == env_name@ {
                            set_entry(entries(e.config_values@), key@, value@)
                        } else {
                            entries(e.config_values@)
                        }
                    },
            },
    {
        let ls = match lines {
            Some(ls) => ls,
            None => {
                let mut m = owned("Environment '");
                push_str(&mut m, env_name);
                push_str(&mut m, "' not found");
                return Err(CellError::Config(m));
            },
        };
        let out = self.insert_config_line(ls, key, value);
        let ghost reg0 = registry@;
        let n = registry.len();
        for i in 0..n
            invariant
                n == reg0.len(),
                registry@.len() == n,
                registry_ok(registry@),
                forall|k: int| i <= k < n ==> #[trigger] registry@[k] == reg0[k],
                forall|k: int| 0 <= k < i ==> {
                    let e = reg0[k];
                    let f = #[trigger] registry@[k];
                    &&& f.name == e.name
                    &&& entries(f.config_values@) == if e.name@ == env_name@ {
                        set_entry(entries(e.config_values@), key@, value@)
                    } else {
                        entries(e.config_values@)
                    }
                },
        {
            if str_eq(registry[i].name.as_str(), env_name) {
                let mut e = registry.remove(i);
                assert(unique_keys(entries(e.config_values@))) by {
                    assert(e == reg0[i as int]);
                }
                put_entry(&mut e.config_values, key, value);
                e.last_modified = owned(now);
                registry.insert(i, e);
                proof {
                    assert forall|k: int| 0 <= k < n implies unique_keys(entries((#[trigger] registry@[k]).config_values@)) by {
                        if k != i as int {
                            assert(registry@[k] == registry@[k]);
                        }
                    }
                }
            }
        }
        Ok(out)
    }

    /// Sets every value of environment `from_env` in `to_env`, in the order
    /// of its entries; `lines` are those of the file of `to_env`.
    pub fn sync_config(
        &self,
        registry: &mut Vec<EnvironmentConfig>,
        lines: Option<Vec<String>>,
        from_env: &str,
        to_env: &str,
        now: &str,
    ) -> (r: CellResult<Vec<String>>)
        requires
            registry_ok(old(registry)@),
        ensures
            registry_ok(final(registry)@),
            env_at(old(registry)@, from_env@) is None ==> (r matches Err(CellError::Config(m)) && m@ == not_found(from_env@)),
    {
        let from = match find_env(registry, from_env) {
            Some(i) => copy_env(&registry[i]),
            None => {
                let mut m = owned("Environment '");
                push_str(&mut m, from_env);
                push_str(&mut m, "' not found");
                return Err(CellError::Config(m));
            },
        };
        let mut current = lines;
        for k in 0..from.config_values.len()
            invariant
                registry_ok(registry@),
                env_at(old(registry)@, from_env@) is Some,
        {
            let out = self.set_config(registry, current, to_env, from.config_values[k].0.as_str(),
                from.config_values[k].1.as_str(), now)?;
            current = Some(out);
        }
        assert(env_at(old(registry)@, from_env@) is Some);
        match current {
            Some(ls) => Ok(ls),
            None => {
                let mut m = owned("Environment '");
                push_str(&mut m, to_env);
                push_str(&mut m, "' not found");
                Err(CellError::Config(m))
            },
        }
    }

    /// The drift of every environment but `dev` from `dev`, when the
    /// registry holds two environments or more.
    #[verifier::rlimit(60)]
    pub fn detect_drift(&self, registry: &Vec<EnvironmentConfig>, now: &str) -> (r: CellResult<Vec<DriftReport>>)
        ensures
            r is Ok,
            registry@.len() < 2 ==> r->Ok_0@.len() == 0,
            env_at(registry@, "dev"@) is None ==> r->Ok_0@.len() == 0,
            forall|k: int| 0 <= k < r->Ok_0@.len() ==> report_ok(#[trigger] r->Ok_0@[k]),
            registry@.len() >= 2 && env_at(registry@, "dev"@) is Some ==> r->Ok_0@.len() == non_dev_count(registry@),
            forall|k: int| 0 <= k < r->Ok_0@.len() ==> report_for(registry@, env_at(registry@, "dev"@)->Some_0,
                #[trigger] r->Ok_0@[k]),
    {
        let mut reports: Vec<DriftReport> = Vec::new();
        if registry.len() >= 2 {
            match find_env(registry, "dev") {
                Some(d) => {
                    for i in 0..registry.len()
                        invariant
                            d < registry@.len(),
                            env_at(registry@, "dev"@) == Some(d as int),
                            forall|k: int| 0 <= k < reports@.len() ==> report_ok(#[trigger] reports@[k]),
                            reports@.len() == non_dev_count(registry@.take(i as int)),
                            forall|k: int| 0 <= k < reports@.len() ==> report_for(registry@, d as int, #[trigger] reports@[k]),
                    {
                        assert(registry@.take(i + 1).drop_last() =~= registry@.take(i as int));
                        if !str_eq(registry[i].name.as_str(), "dev") {
                            let t = match find_env(registry, registry[i].name.as_str()) {
                                Some(t) => t,
                                None => i,
                            };
                            let rep = drift_report(&registry[d], &registry[t], registry[i].name.as_str(), now);
                            let ghost before = reports@;
                            reports.push(rep);
                            proof {
                                assert(registry@[t as int].name@ == registry@[i as int].name@);
                                assert(report_of(rep, entries(registry@[d as int].config_values@),
                                    entries(registry@[t as int].config_values@)));
                                assert(report_for(registry@, d as int, rep));
                                assert forall|k: int| 0 <= k < reports@.len() implies report_for(registry@, d as int, #[trigger] reports@[k]) by {
                                    if k < before.len() {
                                        assert(reports@[k] == before[k]);
                                    }
                                }
                            }
                        }
                    }
                    assert(registry@.take(registry@.len() as int) =~= registry@);
                },
                None => {},
            }
        }
        Ok(reports)
    }
}

/// A report compares `dev` with another environment and counts its drift.
pub open spec fn report_ok(r: DriftReport) -> bool {
    &&& r.base_env@ == "dev"@
    &&& r.drift_count == drift_count(r.diffs@)
}

/// `r` compares the settings `base` with `target`: one diff per compared key.
pub open spec fn report_of(r: DriftReport, base: Entries, target: Entries) -> bool {
    &&& report_ok(r)
    &&& r.diffs@.len() == diff_keys(base, target).len()
    &&& forall|k: int| 0 <= k < r.diffs@.len() ==> diff_ok(#[trigger] r.diffs@[k], diff_keys(base, target)[k], base, target)
}

/// `r` is the report on an environment of `reg` other than `dev`, compared
/// with the environment at `d`.
pub open spec fn report_for(reg: Seq<EnvironmentConfig>, d: int, r: DriftReport) -> bool {
    exists|t: int| 0 <= t < reg.len() && r.target_env@ == reg[t].name@ && reg[t].name@ != "dev"@
        && #[trigger] report_of(r, entries(reg[d].config_values@), entries(reg[t].config_values@))
}

/// Number of environments not named `dev`.
pub open spec fn non_dev_count(reg: Seq<EnvironmentConfig>) -> nat
    decreases reg.len(),
{
    if reg.len() == 0 {
        0
    } else {
        non_dev_count(reg.drop_last()) + if reg.last().name@ != "dev"@ { 1nat } else { 0nat }
    }
}

proof fn lemma_lookup_some(es: Entries, i: int)
    requires
        0 <= i < es.len(),
    ensures
        lookup(es, es[i].0) is Some,
    decreases es.len(),
{
    if es.last().0 != es[i].0 {
        assert(i < es.len() - 1);
        assert(es.drop_last()[i] == es[i]);
        lemma_lookup_some(es.drop_last(), i);
    }
}

proof fn lemma_drift_positive(ds: Seq<ConfigDiff>, i: int)
    requires
        0 <= i < ds.len(),
        ds[i].diff_type != DiffType::Same,
    ensures
        drift_count(ds) >= 1,
    decreases ds.len(),
{
    if i < ds.len() - 1 {
        assert(ds.drop_last()[i] == ds[i]);
        lemma_drift_positive(ds.drop_last(), i);
    }
}

/// A setting the base environment has and the target lacks is reported as
/// removed, under its key at its place among the base's keys, and the
/// report counts drift.
pub proof fn law_removed_key_is_drift(r: DriftReport, base: Entries, target: Entries, i: int)
    requires
        report_of(r, base, target),
        0 <= i < base.len(),
        lookup(target, base[i].0) is None,
    ensures
        r.diffs@[i].key@ == base[i].0,
        r.diffs@[i].diff_type == DiffType::Removed,
        r.drift_count >= 1,
{
    let ks = diff_keys(base, target);
    assert(ks[i] == base[i].0);
    lemma_lookup_some(base, i);
    assert(diff_ok(r.diffs@[i], ks[i], base, target));
    lemma_drift_positive(r.diffs@, i);
}

/// A setting the target has and the base lacks is reported as added and
/// counts as drift; a report has no drift exactly when every diff is the same.
pub proof fn law_drift_counts_differences(ds: Seq<ConfigDiff>)
    ensures
        drift_count(ds) == 0 <==> forall|k: int| 0 <= k < ds.len() ==> (#[trigger] ds[k]).diff_type == DiffType::Same,
    decreases ds.len(),
{
    if ds.len() > 0 {
        let init = ds.drop_last();
        law_drift_counts_differences(init);
        if ds.last().diff_type != DiffType::Same {
            lemma_drift_positive(ds, ds.len() - 1);
        } else {
            if drift_count(ds) == 0 {
                assert forall|k: int| 0 <= k < ds.len() implies (#[trigger] ds[k]).diff_type == DiffType::Same by {
                    if k < ds.len() - 1 {
                        assert(init[k] == ds[k]);
                    }
                }
            }
            if forall|k: int| 0 <= k < ds.len() ==> (#[trigger] ds[k]).diff_type == DiffType::Same {
                assert forall|k: int| 0 <= k < init.len() implies (#[trigger] init[k]).diff_type == DiffType::Same by {
                    assert(init[k] == ds[k]);
                }
            }
        }
    }
}

/// Keys present on one side only are drift of the matching kind; equal
/// values are the same.
pub proof fn law_diff_kinds(b: Option<Seq<char>>, t: Option<Seq<char>>)
    ensures
        b is Some && t is None ==> diff_kind(b, t) == DiffType::Removed,
        b is None && t is Some ==> diff_kind(b, t) == DiffType::Added,
        b is Some && t is Some && b != t ==> diff_kind(b, t) == DiffType::Changed,
        b == t ==> diff_kind(b, t) == DiffType::Same,
{
}

fn drift_report(base: &EnvironmentConfig, target: &EnvironmentConfig, target_name: &str, now: &str) -> (r: DriftReport)
    ensures
        report_of(r, entries(base.config_values@), entries(target.config_values@)),
        report_ok(r),
        r.target_env@ == target_name@,
        r.diffs@.len() == diff_keys(entries(base.config_values@), entries(target.config_values@)).len(),
        forall|k: int| 0 <= k < r.diffs@.len() ==> diff_ok(#[trigger] r.diffs@[k],
            diff_keys(entries(base.config_values@), entries(target.config_values@))[k],
            entries(base.config_values@), entries(target.config_values@)),
{
    let diffs = diff_entries(&base.config_values, &target.config_values);
    let c = count_drift(&diffs);
    DriftReport {
        base_env: owned("dev"),
        target_env: owned(target_name),
        diffs,
        drift_count: c,
        generated_at: owned(now),
    }
}

impl Default for MultiEnvConfigService {
    fn default() -> (r: Self) {
        MultiEnvConfigService
    }
}


proof fn lemma_lookup_unique(es: Entries, key: Seq<char>, i: int)
    requires
        unique_keys(es),
        0 <= i < es.len(),
        es[i].0 == key,
    ensures
        lookup(es, key) == Some(es[i].1),
{
    assert forall|j: int| i < j < es.len() implies es[j].0 != key by {
        assert(es[i].0 != es[j].0);
    }
    lemma_lookup_at(es, i, key);
}

proof fn lemma_env_at_first(reg: Seq<EnvironmentConfig>, name: Seq<char>, k: int)
    requires
        0 <= k < reg.len(),
        reg[k].name@ == name,
        forall|j: int| 0 <= j < k ==> (#[trigger] reg[j]).name@ != name,
    ensures
        env_at(reg, name) == Some(k),
{
    let c = choose|i: int| 0 <= i < reg.len() && reg[i].name@ == name && forall|j: int| 0 <= j < i ==> reg[j].name@ != name;
    assert(0 <= c < reg.len() && reg[c].name@ == name && forall|j: int| 0 <= j < c ==> reg[j].name@ != name);
    if c < k {
        assert(reg[c].name@ != name);
    } else if c > k {
        assert(reg[k].name@ != name);
    }
}

proof fn lemma_first_named(reg: Seq<EnvironmentConfig>, name: Seq<char>, i: int) -> (k: int)
    requires
        0 <= i < reg.len(),
        reg[i].name@ == name,
    ensures
        0 <= k <= i,
        reg[k].name@ == name,
        forall|j: int| 0 <= j < k ==> (#[trigger] reg[j]).name@ != name,
    decreases i,
{
    if exists|j: int| 0 <= j < i && (#[trigger] reg[j]).name@ == name {
        let j = choose|j: int| 0 <= j < i && (#[trigger] reg[j]).name@ == name;
        lemma_first_named(reg, name, j)
    } else {
        i
    }
}

proof fn lemma_env_at_some(reg: Seq<EnvironmentConfig>, name: Seq<char>)
    requires
        env_at(reg, name) is Some,
    ensures
        ({
            let k = env_at(reg, name)->Some_0;
            &&& 0 <= k < reg.len()
            &&& reg[k].name@ == name
            &&& forall|j: int| 0 <= j < k ==> (#[trigger] reg[j]).name@ != name
        }),
{
    let i = choose|i: int| 0 <= i < reg.len() && reg[i].name@ == name;
    let k = lemma_first_named(reg, name, i);
    lemma_env_at_first(reg, name, k);
}

/// An environment reads through the registry what was last set in it: after
/// `set_config` sets `key` in environment `env`, `get_config` of `env` gives
/// the value, its other keys read as before, and every environment is found
/// where it was, the others with their settings unchanged.
pub proof fn law_get_config_after_set(before: Seq<EnvironmentConfig>, after: Seq<EnvironmentConfig>, env: Seq<char>,
    key: Seq<char>, value: Seq<char>)
    requires
        registry_ok(before),
        env_at(before, env) is Some,
        after.len() == before.len(),
        forall|i: int| 0 <= i < before.len() ==> {
            let e = before[i];
            let f = #[trigger] after[i];
            &&& f.name == e.name
            &&& entries(f.config_values@) == if e.name@ == env {
                set_entry(entries(e.config_values@), key, value)
            } else {
                entries(e.config_values@)
            }
        },
    ensures
        env_at(after, env) == env_at(before, env),
        lookup(entries(after[env_at(before, env)->Some_0].config_values@), key) == Some(value),
        forall|other: Seq<char>| other != key ==> #[trigger] lookup(entries(after[env_at(before, env)->Some_0].config_values@), other)
            == lookup(entries(before[env_at(before, env)->Some_0].config_values@), other),
        forall|n: Seq<char>| n != env && #[trigger] env_at(before, n) is Some ==> env_at(after, n) == env_at(before, n)
            && entries(after[env_at(before, n)->Some_0].config_values@) == entries(before[env_at(before, n)->Some_0].config_values@),
{
    let k = env_at(before, env)->Some_0;
    lemma_env_at_some(before, env);
    assert(after[k].name == before[k].name);
    assert forall|j: int| 0 <= j < k implies (#[trigger] after[j]).name@ != env by {
        assert(after[j].name == before[j].name);
        assert(before[j].name@ != env);
    }
    lemma_env_at_first(after, env, k);
    assert(unique_keys(entries(before[k].config_values@)));
    assert forall|other: Seq<char>| other != key implies #[trigger] lookup(entries(after[k].config_values@), other)
        == lookup(entries(before[k].config_values@), other) by {
        law_lookup_after_set_entry(entries(before[k].config_values@), key, value, other);
    }
    law_lookup_after_set_entry(entries(before[k].config_values@), key, value, key);
    assert forall|n: Seq<char>| n != env && #[trigger] env_at(before, n) is Some implies env_at(after, n) == env_at(before, n)
        && entries(after[env_at(before, n)->Some_0].config_values@) == entries(before[env_at(before, n)->Some_0].config_values@) by {
        let m = env_at(before, n)->Some_0;
        lemma_env_at_some(before, n);
        assert(after[m].name == before[m].name);
        assert forall|j: int| 0 <= j < m implies (#[trigger] after[j]).name@ != n by {
            assert(after[j].name == before[j].name);
            assert(before[j].name@ != n);
        }
        lemma_env_at_first(after, n, m);
    }
}

/// A new environment holds no setting: reading any key gives nothing.
pub proof fn law_new_environment_is_empty(e: EnvironmentConfig, key: Seq<char>)
    requires
        e.config_values@.len() == 0,
    ensures
        lookup(entries(e.config_values@), key) is None,
{
}

/// Reading a key after setting it gives the value set, and every other key
/// reads as before: what `get_config` returns after `set_config`.
pub proof fn law_lookup_after_set_entry(es: Entries, key: Seq<char>, value: Seq<char>, other: Seq<char>)
    requires
        unique_keys(es),
    ensures
        lookup(set_entry(es, key, value), key) == Some(value),
        other != key ==> lookup(set_entry(es, key, value), other) == lookup(es, other),
{
    let n = set_entry(es, key, value);
    if exists|i: int| 0 <= i < es.len() && es[i].0 == key {
        let c = choose|i: int| 0 <= i < es.len() && es[i].0 == key;
        assert(n == es.update(c, (key, value)));
        assert forall|a: int, b: int| 0 <= a < b < n.len() implies n[a].0 != n[b].0 by {
            assert(n[a].0 == es[a].0 && n[b].0 == es[b].0);
        }
        lemma_lookup_unique(n, key, c);
        if other != key {
            if exists|j: int| 0 <= j < es.len() && es[j].0 == other {
                let j = choose|j: int| 0 <= j < es.len() && es[j].0 == other;
                assert(n[j] == es[j]);
                lemma_lookup_unique(n, other, j);
                lemma_lookup_unique(es, other, j);
            } else {
                assert forall|i: int| 0 <= i < n.len() implies n[i].0 != other by {
                    assert(n[i].0 == es[i].0);
                }
                lemma_lookup_none(n, other);
                lemma_lookup_none(es, other);
            }
        }
    } else {
        assert(n == es.push((key, value)));
        assert(n.drop_last() =~= es);
    }
}

} // verus!
