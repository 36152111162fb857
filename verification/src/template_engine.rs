//! Source templates of a new cell, rendered from its specification.
use vstd::prelude::*;
use crate::text::{owned, push_str, push_char, push_chars, push_join, join, to_chars};
use crate::cell_spec::{CellSpec, PortSpec, AdapterSpec, port_kind_name, adapter_kind_name, adapter_kind_str};

verus! {

/// `c` has the Unicode `Uppercase` property (what `char::is_uppercase` tests).
pub uninterp spec fn unicode_uppercase(c: char) -> bool;

/// `c` is an uppercase letter: below 128 exactly `A`..=`Z`, beyond that
/// the Unicode `Uppercase` property.
pub open spec fn is_upper(c: char) -> bool {
    if (c as u32) < 128 {
        'A' <= c && c <= 'Z'
    } else {
        unicode_uppercase(c)
    }
}

/// `char::is_uppercase`: whether `c` has the Unicode `Uppercase` property.
/// Among ASCII characters exactly `A`..=`Z` have it; of the others nothing is
/// stated beyond the name.
#[verifier::external_body]
fn is_uppercase(c: char) -> (r: bool)
    ensures
        r == unicode_uppercase(c),
        r == is_upper(c),
{
    c.is_uppercase()
}

/// `c` with ASCII `A`..=`Z` mapped to `a`..=`z`.
pub open spec fn ascii_lower(c: char) -> char {
    if 'A' <= c && c <= 'Z' { ((c as u32) + 32) as char } else { c }
}

/// `c` with ASCII `a`..=`z` mapped to `A`..=`Z`.
pub open spec fn ascii_upper(c: char) -> char {
    if 'a' <= c && c <= 'z' { ((c as u32) - 32) as char } else { c }
}

fn to_ascii_lower(c: char) -> (r: char)
    ensures
        r == ascii_lower(c),
{
    if 'A' <= c && c <= 'Z' {
        let u: u32 = c as u32;
        let b: u8 = (u + 32) as u8;
        assert(b as u32 == u + 32);
        b as char
    } else {
        c
    }
}

fn to_ascii_upper(c: char) -> (r: char)
    ensures
        r == ascii_upper(c),
{
    if 'a' <= c && c <= 'z' {
        let u: u32 = c as u32;
        let b: u8 = (u - 32) as u8;
        assert(b as u32 == u - 32);
        b as char
    } else {
        c
    }
}

/// `s` in snake case: an `_` before every uppercase character but the first,
/// and ASCII letters lowered.
pub open spec fn snake_case(s: Seq<char>) -> Seq<char>
    decreases s.len(),
{
    if s.len() == 0 {
        Seq::empty()
    } else {
        let i = s.len() - 1;
        let c = s[i];
        snake_case(s.drop_last()) + (if is_upper(c) && i > 0 { seq!['_'] } else { Seq::empty() })
            + seq![ascii_lower(c)]
    }
}

/// `s` in Pascal case, with the flag "next character starts a word": `_`
/// is dropped and starts a word, the first character of a word is raised.
pub open spec fn pascal_state(s: Seq<char>) -> (Seq<char>, bool)
    decreases s.len(),
{
    if s.len() == 0 {
        (Seq::empty(), true)
    } else {
        let prev = pascal_state(s.drop_last());
        let c = s.last();
        if c == '_' {
            (prev.0, true)
        } else if prev.1 {
            (prev.0.push(ascii_upper(c)), false)
        } else {
            (prev.0.push(c), false)
        }
    }
}

/// `s` in Pascal case.
pub open spec fn pascal_case(s: Seq<char>) -> Seq<char> {
    pascal_state(s).0
}

/// `s` in snake case.
pub fn to_snake_case(s: &str) -> (r: String)
    ensures
        r@ == snake_case(s@),
{
    let v = to_chars(s);
    let mut r = String::new();
    let n = v.len();
    assert(v@.take(0) =~= Seq::<char>::empty());
    for i in 0..n
        invariant
            n == v@.len(),
            v@ == s@,
            r@ == snake_case(v@.take(i as int)),
    {
        let c = v[i];
        let ghost r0 = r@;
        if is_uppercase(c) && i > 0 {
            push_char(&mut r, '_');
        }
        push_char(&mut r, to_ascii_lower(c));
        proof {
            assert(v@.take(i + 1).drop_last() =~= v@.take(i as int));
            assert(r@ =~= r0 + (if is_upper(c) && i > 0 { seq!['_'] } else { Seq::<char>::empty() })
                + seq![ascii_lower(c)]);
        }
    }
    assert(v@.take(n as int) =~= v@);
    r
}

/// `s` in Pascal case.
pub fn to_pascal_case(s: &str) -> (r: String)
    ensures
        r@ == pascal_case(s@),
{
    let v = to_chars(s);
    let mut r = String::new();
    let mut upper = true;
    let n = v.len();
    assert(v@.take(0) =~= Seq::<char>::empty());
    for i in 0..n
        invariant
            n == v@.len(),
            v@ == s@,
            (r@, upper) == pascal_state(v@.take(i as int)),
    {
        let c = v[i];
        assert(v@.take(i + 1).drop_last() =~= v@.take(i as int));
        if c == '_' {
            upper = true;
        } else if upper {
            push_char(&mut r, to_ascii_upper(c));
            upper = false;
        } else {
            push_char(&mut r, c);
        }
    }
    assert(v@.take(n as int) =~= v@);
    r
}

/// A file to write: its path and its text.
#[derive(Debug, Clone)]
pub struct GeneratedFile {
    pub path: String,
    pub content: String,
}

pub open spec fn file_views(fs: Seq<GeneratedFile>) -> Seq<(Seq<char>, Seq<char>)> {
    fs.map_values(|f: GeneratedFile| (f.path@, f.content@))
}

/// What renders the files of a new cell from its specification and its
/// serialized form.
pub trait CodeGeneratorPort {
    /// The files rendered for `spec` with serialized form `spec_yaml`.
    spec fn rendered(&self, spec: CellSpec, spec_yaml: Seq<char>) -> Seq<(Seq<char>, Seq<char>)>;

    fn render_cell_structure(&self, spec: &CellSpec, spec_yaml: &str) -> (r: Vec<GeneratedFile>)
        ensures
            file_views(r@) == self.rendered(*spec, spec_yaml@);
}

pub open spec fn dep_line(d: Seq<char>) -> Seq<char> {
    d + " = \"1\""@
}

pub open spec fn cargo_toml(name: Seq<char>, version: Seq<char>, description: Seq<char>, deps: Seq<Seq<char>>) -> Seq<char> {
    "[package]\nname = \""@ + name + "\"\nversion = \""@ + version + "\"\nedition = \"2024\"\ndescription = \""@
        + description + "\"\n\n[dependencies]\nserde = { version = \"1\", features = [\"derive\"] }\nthiserror = \"1\"\n"@
        + join(deps.map_values(|d: Seq<char>| dep_line(d)), "\n"@) + "\n"@
}

pub open spec fn string_views(v: Seq<String>) -> Seq<Seq<char>> {
    v.map_values(|s: String| s@)
}

pub open spec fn port_line(p: PortSpec) -> Seq<char> {
    "- `"@ + p.name@ + "` ("@ + port_kind_name(p.kind) + ")"@
}

pub open spec fn adapter_line(a: AdapterSpec) -> Seq<char> {
    "- `"@ + a.name@ + "` (port: "@ + a.port@ + ")"@
}

pub open spec fn readme(spec: CellSpec) -> Seq<char> {
    "# "@ + spec.name@ + "\n\n"@ + spec.description@
        + "\n\n## 架构\n\n```\nsrc/\n├── domain/       # 领域层（纯业务逻辑）\n├── application/  # 应用层（用例编排 + Port 定义）\n├── adapters/     # 适配器层（Port 实现）\n└── interfaces/   # 接口层（外部入口）\n```\n\n## Ports\n\n"@
        + join(spec.ports@.map_values(|p: PortSpec| port_line(p)), "\n"@) + "\n\n## Adapters\n\n"@
        + join(spec.adapters@.map_values(|a: AdapterSpec| adapter_line(a)), "\n"@) + "\n"@
}

pub open spec fn lib_rs(has_ports: bool) -> Seq<char> {
    "pub mod domain;\npub mod application;\npub mod adapters;\npub mod interfaces;\n"@
        + if has_ports { "\npub use application::ports::*;\n"@ } else { Seq::empty() }
}

pub open spec fn domain_mod(name: Seq<char>) -> Seq<char> {
    "// Domain layer for "@ + name + "\n// Pure business logic, no external dependencies\n"@
}

pub open spec fn application_mod(has_ports: bool) -> Seq<char> {
    "// Application layer\n"@ + if has_ports { "pub mod ports;\n"@ } else { Seq::empty() }
}

/// `pub mod` lines for the first `n` adapters.
pub open spec fn adapter_mods(adapters: Seq<AdapterSpec>, n: nat) -> Seq<char>
    decreases n,
{
    if n == 0 || n > adapters.len() {
        Seq::empty()
    } else {
        adapter_mods(adapters, (n - 1) as nat) + "pub mod "@ + snake_case(adapters[n - 1].name@) + ";\n"@
    }
}

pub open spec fn adapters_mod(adapters: Seq<AdapterSpec>) -> Seq<char> {
    "// Adapters layer - implement ports\n"@ + adapter_mods(adapters, adapters.len())
}

pub open spec fn opt_or(o: Option<String>, d: Seq<char>) -> Seq<char> {
    match o {
        Some(s) => s@,
        None => d,
    }
}

/// The source of a port trait.
pub open spec fn port_source(name: Seq<char>, is_async: bool, input: Seq<char>, output: Seq<char>) -> Seq<char> {
    "use crate::domain::errors::CellResult;\n\npub trait "@ + pascal_case(name) + " {\n    fn "@
        + (if is_async { "async "@ } else { Seq::empty() }) + "execute(&self, input: "@ + input
        + ") -> CellResult<"@ + output + ">;\n}\n"@
}

pub open spec fn port_file_source(p: PortSpec) -> Seq<char> {
    port_source(p.name@, p.is_async, opt_or(p.input, "()"@), opt_or(p.output, "()"@))
}

/// The source of an adapter struct.
pub open spec fn adapter_source(name: Seq<char>, kind: Seq<char>, port: Seq<char>) -> Seq<char> {
    "// Adapter: "@ + name + " (kind: "@ + kind + ")\n// Implements port: "@ + port + "\n\npub struct "@
        + pascal_case(name) + "Adapter;\n\nimpl "@ + pascal_case(name)
        + "Adapter {\n    pub fn new() -> Self {\n        Self\n    }\n}\n"@
}

pub open spec fn port_files(name: Seq<char>, ports: Seq<PortSpec>) -> Seq<(Seq<char>, Seq<char>)> {
    ports.map_values(|p: PortSpec| (name + "/src/application/ports/"@ + snake_case(p.name@) + ".rs"@, port_file_source(p)))
}

pub open spec fn adapter_files(name: Seq<char>, adapters: Seq<AdapterSpec>) -> Seq<(Seq<char>, Seq<char>)> {
    adapters.map_values(|a: AdapterSpec| (name + "/src/adapters/"@ + snake_case(a.name@) + ".rs"@,
        adapter_source(a.name@, adapter_kind_name(a.kind), a.port@)))
}

/// The files of a new cell, in the order they are rendered.
pub open spec fn cell_files(spec: CellSpec, spec_yaml: Seq<char>) -> Seq<(Seq<char>, Seq<char>)> {
    let n = spec.name@;
    seq![
        (n + "/Cargo.toml"@, cargo_toml(n, spec.version@, spec.description@, string_views(spec.dependencies@))),
        (n + "/README.md"@, readme(spec)),
        (n + "/src/lib.rs"@, lib_rs(spec.ports@.len() > 0)),
        (n + "/src/domain/mod.rs"@, domain_mod(n)),
        (n + "/src/application/mod.rs"@, application_mod(spec.ports@.len() > 0)),
        (n + "/src/adapters/mod.rs"@, adapters_mod(spec.adapters@)),
        (n + "/src/interfaces/mod.rs"@, "// Interfaces layer - external entry points\n"@),
        (n + "/spec.yaml"@, spec_yaml)
    ] + port_files(n, spec.ports@) + adapter_files(n, spec.adapters@)
}

fn render_cargo_toml(spec: &CellSpec) -> (r: String)
    ensures
        r@ == cargo_toml(spec.name@, spec.version@, spec.description@, string_views(spec.dependencies@)),
{
    let mut lines: Vec<String> = Vec::new();
    let n = spec.dependencies.len();
    let ghost dv = string_views(spec.dependencies@);
    for i in 0..n
        invariant
            n == spec.dependencies@.len(),
            dv == string_views(spec.dependencies@),
            lines@.len() == i,
            forall|k: int| 0 <= k < i ==> (#[trigger] lines@[k])@ == dep_line(dv[k]),
    {
        let mut l = spec.dependencies[i].clone();
        push_str(&mut l, " = \"1\"");
        lines.push(l);
    }
    assert(lines@.map_values(|x: String| x@) =~= dv.map_values(|d: Seq<char>| dep_line(d)));
    let mut r = owned("[package]\nname = \"");
    push_str(&mut r, spec.name.as_str());
    push_str(&mut r, "\"\nversion = \"");
    push_str(&mut r, spec.version.as_str());
    push_str(&mut r, "\"\nedition = \"2024\"\ndescription = \"");
    push_str(&mut r, spec.description.as_str());
    push_str(&mut r, "\"\n\n[dependencies]\nserde = { version = \"1\", features = [\"derive\"] }\nthiserror = \"1\"\n");
    push_join(&mut r, &lines, "\n");
    push_str(&mut r, "\n");
    r
}

fn render_readme(spec: &CellSpec) -> (r: String)
    ensures
        r@ == readme(*spec),
{
    let mut plines: Vec<String> = Vec::new();
    let np = spec.ports.len();
    for i in 0..np
        invariant
            np == spec.ports@.len(),
            plines@.len() == i,
            forall|k: int| 0 <= k < i ==> (#[trigger] plines@[k])@ == port_line(spec.ports@[k]),
    {
        let p = &spec.ports[i];
        let mut l = owned("- `");
        push_str(&mut l, p.name.as_str());
        push_str(&mut l, "` (");
        push_str(&mut l, p.kind.as_str());
        push_str(&mut l, ")");
        plines.push(l);
    }
    assert(plines@.map_values(|x: String| x@) =~= spec.ports@.map_values(|p: PortSpec| port_line(p)));
    let mut alines: Vec<String> = Vec::new();
    let na = spec.adapters.len();
    for i in 0..na
        invariant
            na == spec.adapters@.len(),
            alines@.len() == i,
            forall|k: int| 0 <= k < i ==> (#[trigger] alines@[k])@ == adapter_line(spec.adapters@[k]),
    {
        let a = &spec.adapters[i];
        let mut l = owned("- `");
        push_str(&mut l, a.name.as_str());
        push_str(&mut l, "` (port: ");
        push_str(&mut l, a.port.as_str());
        push_str(&mut l, ")");
        alines.push(l);
    }
    assert(alines@.map_values(|x: String| x@) =~= spec.adapters@.map_values(|a: AdapterSpec| adapter_line(a)));
    let mut r = owned("# ");
    push_str(&mut r, spec.name.as_str());
    push_str(&mut r, "\n\n");
    push_str(&mut r, spec.description.as_str());
    push_str(&mut r, "\n\n## 架构\n\n```\nsrc/\n├── domain/       # 领域层（纯业务逻辑）\n├── application/  # 应用层（用例编排 + Port 定义）\n├── adapters/     # 适配器层（Port 实现）\n└── interfaces/   # 接口层（外部入口）\n```\n\n## Ports\n\n");
    push_join(&mut r, &plines, "\n");
    push_str(&mut r, "\n\n## Adapters\n\n");
    push_join(&mut r, &alines, "\n");
    push_str(&mut r, "\n");
    r
}

fn render_lib_rs(spec: &CellSpec) -> (r: String)
    ensures
        r@ == lib_rs(spec.ports@.len() > 0),
{
    let mut content = owned("pub mod domain;\npub mod application;\npub mod adapters;\npub mod interfaces;\n");
    if spec.ports.len() > 0 {
        push_str(&mut content, "\npub use application::ports::*;\n");
    }
    content
}

fn render_domain_mod(spec: &CellSpec) -> (r: String)
    ensures
        r@ == domain_mod(spec.name@),
{
    let mut r = owned("// Domain layer for ");
    push_str(&mut r, spec.name.as_str());
    push_str(&mut r, "\n// Pure business logic, no external dependencies\n");
    r
}

fn render_application_mod(spec: &CellSpec) -> (r: String)
    ensures
        r@ == application_mod(spec.ports@.len() > 0),
{
    let mut content = owned("// Application layer\n");
    if spec.ports.len() > 0 {
        push_str(&mut content, "pub mod ports;\n");
    }
    content
}

fn render_adapters_mod(spec: &CellSpec) -> (r: String)
    ensures
        r@ == adapters_mod(spec.adapters@),
{
    let mut content = owned("// Adapters layer - implement ports\n");
    let ghost c0 = content@;
    let n = spec.adapters.len();
    for i in 0..n
        invariant
            n == spec.adapters@.len(),
            content@ == c0 + adapter_mods(spec.adapters@, i as nat),
    {
        push_str(&mut content, "pub mod ");
        let sn = to_snake_case(spec.adapters[i].name.as_str());
        push_str(&mut content, sn.as_str());
        push_str(&mut content, ";\n");
        assert(c0 + adapter_mods(spec.adapters@, (i + 1) as nat) =~=
            c0 + adapter_mods(spec.adapters@, i as nat) + "pub mod "@ + snake_case(spec.adapters@[i as int].name@) + ";\n"@);
    }
    content
}

/// The source of a port trait.
pub fn render_port_trait(port: &PortSpec) -> (r: String)
    ensures
        r@ == port_file_source(*port),
{
    let mut r = owned("use crate::domain::errors::CellResult;\n\npub trait ");
    let pn = to_pascal_case(port.name.as_str());
    push_str(&mut r, pn.as_str());
    push_str(&mut r, " {\n    fn ");
    if port.is_async {
        push_str(&mut r, "async ");
    }
    push_str(&mut r, "execute(&self, input: ");
    match &port.input {
        Some(t) => push_str(&mut r, t.as_str()),
        None => push_str(&mut r, "()"),
    }
    push_str(&mut r, ") -> CellResult<");
    match &port.output {
        Some(t) => push_str(&mut r, t.as_str()),
        None => push_str(&mut r, "()"),
    }
    push_str(&mut r, ">;\n}\n");
    r
}

/// The source of an adapter struct.
pub fn render_adapter_struct(name: &str, kind: crate::cell_spec::AdapterKind, port: &str) -> (r: String)
    ensures
        r@ == adapter_source(name@, adapter_kind_name(kind), port@),
{
    let pn = to_pascal_case(name);
    let mut r = owned("// Adapter: ");
    push_str(&mut r, name);
    push_str(&mut r, " (kind: ");
    push_str(&mut r, adapter_kind_str(kind));
    push_str(&mut r, ")\n// Implements port: ");
    push_str(&mut r, port);
    push_str(&mut r, "\n\npub struct ");
    push_str(&mut r, pn.as_str());
    push_str(&mut r, "Adapter;\n\nimpl ");
    push_str(&mut r, pn.as_str());
    push_str(&mut r, "Adapter {\n    pub fn new() -> Self {\n        Self\n    }\n}\n");
    r
}

fn gen_file(path: String, content: String) -> (r: GeneratedFile)
    ensures
        r.path@ == path@,
        r.content@ == content@,
{
    GeneratedFile { path, content }
}

fn path_under(name: &str, rest: &str) -> (r: String)
    ensures
        r@ == name@ + rest@,
{
    let mut p = owned(name);
    push_str(&mut p, rest);
    p
}

/// Renders the files of a cell from templates.
pub struct TemplateEngine;

impl TemplateEngine {
    pub fn new() -> (r: Self) {
        TemplateEngine
    }

    /// The files of a new cell: manifest, readme, the four layers, the
    /// specification (`spec_yaml`), then one file per port and per adapter.
    pub fn render(&self, spec: &CellSpec, spec_yaml: &str) -> (r: Vec<GeneratedFile>)
        ensures
            file_views(r@) == cell_files(*spec, spec_yaml@),
    {
        let name = spec.name.as_str();
        let mut files: Vec<GeneratedFile> = Vec::new();
        files.push(gen_file(path_under(name, "/Cargo.toml"), render_cargo_toml(spec)));
        files.push(gen_file(path_under(name, "/README.md"), render_readme(spec)));
        files.push(gen_file(path_under(name, "/src/lib.rs"), render_lib_rs(spec)));
        files.push(gen_file(path_under(name, "/src/domain/mod.rs"), render_domain_mod(spec)));
        files.push(gen_file(path_under(name, "/src/application/mod.rs"), render_application_mod(spec)));
        files.push(gen_file(path_under(name, "/src/adapters/mod.rs"), render_adapters_mod(spec)));
        files.push(gen_file(path_under(name, "/src/interfaces/mod.rs"), owned("// Interfaces layer - external entry points\n")));
        files.push(gen_file(path_under(name, "/spec.yaml"), owned(spec_yaml)));
        let ghost head = file_views(files@);
        let np = spec.ports.len();
        for i in 0..np
            invariant
                np == spec.ports@.len(),
                name@ == spec.name@,
                file_views(files@) == head + port_files(spec.name@, spec.ports@).take(i as int),
        {
            let p = &spec.ports[i];
            let sn = to_snake_case(p.name.as_str());
            let mut path = path_under(name, "/src/application/ports/");
            push_str(&mut path, sn.as_str());
            push_str(&mut path, ".rs");
            let content = render_port_trait(p);
            assert(path@ =~= spec.name@ + "/src/application/ports/"@ + snake_case(p.name@) + ".rs"@);
            assert(port_files(spec.name@, spec.ports@)[i as int] == (path@, content@));
            let ghost before = file_views(files@);
            files.push(gen_file(path, content));
            assert(file_views(files@) =~= before.push(port_files(spec.name@, spec.ports@)[i as int]));
            assert(port_files(spec.name@, spec.ports@).take(i + 1) =~=
                port_files(spec.name@, spec.ports@).take(i as int).push(port_files(spec.name@, spec.ports@)[i as int]));
            assert(file_views(files@) =~= head + port_files(spec.name@, spec.ports@).take(i + 1));
        }
        assert(port_files(spec.name@, spec.ports@).take(np as int) =~= port_files(spec.name@, spec.ports@));
        let ghost head2 = file_views(files@);
        let na = spec.adapters.len();
        for i in 0..na
            invariant
                na == spec.adapters@.len(),
                name@ == spec.name@,
                file_views(files@) == head2 + adapter_files(spec.name@, spec.adapters@).take(i as int),
        {
            let a = &spec.adapters[i];
            let sn = to_snake_case(a.name.as_str());
            let mut path = path_under(name, "/src/adapters/");
            push_str(&mut path, sn.as_str());
            push_str(&mut path, ".rs");
            let content = render_adapter_struct(a.name.as_str(), a.kind, a.port.as_str());
            assert(path@ =~= spec.name@ + "/src/adapters/"@ + snake_case(a.name@) + ".rs"@);
            assert(adapter_files(spec.name@, spec.adapters@)[i as int] == (path@, content@));
            let ghost before = file_views(files@);
            files.push(gen_file(path, content));
            assert(file_views(files@) =~= before.push(adapter_files(spec.name@, spec.adapters@)[i as int]));
            assert(adapter_files(spec.name@, spec.adapters@).take(i + 1) =~=
                adapter_files(spec.name@, spec.adapters@).take(i as int).push(adapter_files(spec.name@, spec.adapters@)[i as int]));
            assert(file_views(files@) =~= head2 + adapter_files(spec.name@, spec.adapters@).take(i + 1));
        }
        assert(adapter_files(spec.name@, spec.adapters@).take(na as int) =~= adapter_files(spec.name@, spec.adapters@));
        assert(file_views(files@) =~= cell_files(*spec, spec_yaml@));
        files
    }
}

impl CodeGeneratorPort for TemplateEngine {
    open spec fn rendered(&self, spec: CellSpec, spec_yaml: Seq<char>) -> Seq<(Seq<char>, Seq<char>)> {
        cell_files(spec, spec_yaml)
    }

    fn render_cell_structure(&self, spec: &CellSpec, spec_yaml: &str) -> (r: Vec<GeneratedFile>) {
        self.render(spec, spec_yaml)
    }
}

impl Default for TemplateEngine {
    fn default() -> (r: Self) {
        TemplateEngine
    }
}

} // verus!
