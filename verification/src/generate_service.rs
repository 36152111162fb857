//! Generation of cells, ports and adapters: what to write and where.
use vstd::prelude::*;
use crate::text::{owned, push_str, ends_with, str_ends_with, to_chars};
use crate::errors::{CellError, CellResult};
use crate::cell_spec::{CellSpec, PortSpec, PortKind, AdapterKind, adapter_kind_name, empty_named};
use crate::template_engine::{
    CodeGeneratorPort, GeneratedFile, file_views, snake_case, to_snake_case, render_port_trait, render_adapter_struct,
    port_source, adapter_source,
};

verus! {

/// `rel` joined under the directory `base`, as `Path::join` does for a relative `rel`.
pub open spec fn path_join(base: Seq<char>, rel: Seq<char>) -> Seq<char> {
    if base.len() == 0 {
        rel
    } else if ends_with(base, "/"@) {
        base + rel
    } else {
        base + "/"@ + rel
    }
}

/// `rel` joined under the directory `base`.
pub fn join_path(base: &str, rel: &str) -> (r: String)
    ensures
        r@ == path_join(base@, rel@),
{
    let bc = to_chars(base);
    if bc.len() == 0 {
        return owned(rel);
    }
    let mut r = owned(base);
    if !str_ends_with(base, "/") {
        push_str(&mut r, "/");
    }
    push_str(&mut r, rel);
    r
}

/// The refusal to write into an existing directory.
pub open spec fn exists_message(output: Seq<char>) -> Seq<char> {
    "Output directory "@ + output + " already exists (use --force to overwrite)"@
}

pub open spec fn joined_files(base: Seq<char>, fs: Seq<(Seq<char>, Seq<char>)>) -> Seq<(Seq<char>, Seq<char>)> {
    fs.map_values(|f: (Seq<char>, Seq<char>)| (path_join(base, f.0), f.1))
}

/// The serialization formats a cell specification can be read from.
#[derive(Debug, Clone, Copy, PartialEq, Eq, Structural)]
pub enum SpecFormat {
    Yaml,
    Json,
    Toml,
}

/// The format of a specification file, by its extension.
pub open spec fn spec_format_of(path: Seq<char>) -> Option<SpecFormat> {
    if ends_with(path, ".yaml"@) || ends_with(path, ".yml"@) {
        Some(SpecFormat::Yaml)
    } else if ends_with(path, ".json"@) {
        Some(SpecFormat::Json)
    } else if ends_with(path, ".toml"@) {
        Some(SpecFormat::Toml)
    } else {
        None
    }
}

/// The format of a specification file, or the error for an unknown extension.
pub fn spec_format(path: &str) -> (r: CellResult<SpecFormat>)
    ensures
        match spec_format_of(path@) {
            Some(f) => r == Ok::<SpecFormat, CellError>(f),
            None => r matches Err(CellError::Config(m))
                && m@ == "Unsupported spec format: "@ + path@ + ". Use yaml, json, or toml."@,
        },
{
    if str_ends_with(path, ".yaml") || str_ends_with(path, ".yml") {
        Ok(SpecFormat::Yaml)
    } else if str_ends_with(path, ".json") {
        Ok(SpecFormat::Json)
    } else if str_ends_with(path, ".toml") {
        Ok(SpecFormat::Toml)
    } else {
        let mut m = owned("Unsupported spec format: ");
        push_str(&mut m, path);
        push_str(&mut m, ". Use yaml, json, or toml.");
        Err(CellError::Config(m))
    }
}

/// Plans the files of new cells, ports and adapters; writing them is left to the caller.
pub struct GenerateService<T: CodeGeneratorPort> {
    code_generator: T,
}

impl<T: CodeGeneratorPort> GenerateService<T> {
    pub closed spec fn generator(&self) -> T {
        self.code_generator
    }

    pub fn new(code_generator: T) -> (r: Self)
        ensures
            r.generator() == code_generator,
    {
        GenerateService { code_generator }
    }

    fn plan(&self, spec: &CellSpec, output: &str, force: bool, output_exists: bool, spec_yaml: &str)
        -> (r: CellResult<Vec<GeneratedFile>>)
        ensures
            output_exists && !force ==> (r matches Err(CellError::AlreadyExists(m)) && m@ == exists_message(output@)),
            !(output_exists && !force) ==> (r matches Ok(fs)
                && file_views(fs@) == joined_files(output@, self.generator().rendered(*spec, spec_yaml@))),
    {
        if output_exists && !force {
            let mut m = owned("Output directory ");
            push_str(&mut m, output);
            push_str(&mut m, " already exists (use --force to overwrite)");
            return Err(CellError::AlreadyExists(m));
        }
        let files = self.code_generator.render_cell_structure(spec, spec_yaml);
        let mut out: Vec<GeneratedFile> = Vec::new();
        let ghost fv = file_views(files@);
        let n = files.len();
        for i in 0..n
            invariant
                n == files@.len(),
                fv == file_views(files@),
                file_views(out@) == joined_files(output@, fv.take(i as int)),
        {
            let f = &files[i];
            let p = join_path(output, f.path.as_str());
            let ghost before = file_views(out@);
            let c = f.content.clone();
            assert(fv[i as int] == (f.path@, f.content@));
            let g = GeneratedFile { path: p, content: c };
            assert((g.path@, g.content@) == (path_join(output@, fv[i as int].0), fv[i as int].1));
            out.push(g);
            assert(file_views(out@) =~= before.push((path_join(output@, fv[i as int].0), fv[i as int].1)));
            assert(fv.take(i + 1) =~= fv.take(i as int).push(fv[i as int]));
            assert(file_views(out@) =~= joined_files(output@, fv.take(i + 1)));
        }
        assert(fv.take(n as int) =~= fv);
        Ok(out)
    }

    /// The files of the cell `spec`, placed under `output`; refused when
    /// `output` exists and `force` is off.
    pub fn generate_cell_from_spec(&self, spec: &CellSpec, spec_yaml: &str, output: &str, force: bool, output_exists: bool)
        -> (r: CellResult<Vec<GeneratedFile>>)
        ensures
            output_exists && !force ==> (r matches Err(CellError::AlreadyExists(m)) && m@ == exists_message(output@)),
            !(output_exists && !force) ==> (r matches Ok(fs)
                && file_views(fs@) == joined_files(output@, self.generator().rendered(*spec, spec_yaml@))),
    {
        self.plan(spec, output, force, output_exists, spec_yaml)
    }

    /// The files of an empty cell named `name`, placed under `output`;
    /// refused when `output` exists and `force` is off.
    pub fn generate_cell_from_name(&self, name: &str, spec_yaml: &str, output: &str, force: bool, output_exists: bool)
        -> (r: CellResult<Vec<GeneratedFile>>)
        ensures
            output_exists && !force ==> (r matches Err(CellError::AlreadyExists(m)) && m@ == exists_message(output@)),
            !(output_exists && !force) ==> (r matches Ok(fs)
                && exists|spec: CellSpec| #[trigger] empty_named(spec, name@)
                    && file_views(fs@) == joined_files(output@, self.generator().rendered(spec, spec_yaml@))),
    {
        let spec = CellSpec::named(name);
        self.plan(&spec, output, force, output_exists, spec_yaml)
    }

    /// The trait file of a new port `name` under `output`.
    pub fn generate_port(&self, name: &str, kind: PortKind, output: &str) -> (r: GeneratedFile)
        ensures
            r.path@ == path_join(output@, "src/application/ports/"@ + snake_case(name@) + ".rs"@),
            r.content@ == port_source(name@, true, "()"@, "()"@),
    {
        let port = PortSpec {
            name: owned(name),
            kind,
            description: String::new(),
            input: None,
            output: None,
            is_async: true,
        };
        let sn = to_snake_case(name);
        let mut rel = owned("src/application/ports/");
        push_str(&mut rel, sn.as_str());
        push_str(&mut rel, ".rs");
        let content = render_port_trait(&port);
        GeneratedFile { path: join_path(output, rel.as_str()), content }
    }

    /// The source file of a new adapter `name` under `output`.
    pub fn generate_adapter(&self, name: &str, kind: AdapterKind, port: &str, output: &str) -> (r: GeneratedFile)
        ensures
            r.path@ == path_join(output@, "src/adapters/"@ + snake_case(name@) + ".rs"@),
            r.content@ == adapter_source(name@, adapter_kind_name(kind), port@),
    {
        let sn = to_snake_case(name);
        let mut rel = owned("src/adapters/");
        push_str(&mut rel, sn.as_str());
        push_str(&mut rel, ".rs");
        let content = render_adapter_struct(name, kind, port);
        GeneratedFile { path: join_path(output, rel.as_str()), content }
    }
}

} // verus!
