//! Validation of a cell specification against a configuration schema.
use vstd::prelude::*;
use crate::text::{owned, push_str, push_decimal, decimal, count_char, count_char_in, to_chars, lemma_count_char_le, join};
use crate::errors::{CellError, CellResult};
use crate::cell_spec::CellSpec;

verus! {

/// Limits a cell specification must respect.
#[derive(Debug, Clone, Copy, PartialEq, Eq, Structural)]
pub struct CellConfigSchema {
    pub min_version_parts: usize,
    pub max_owners: usize,
    pub max_dependencies: usize,
}

impl Default for CellConfigSchema {
    /// Versions of at least three parts, at most ten owners and twenty dependencies.
    fn default() -> (r: Self)
        ensures
            r == (CellConfigSchema { min_version_parts: 3, max_owners: 10, max_dependencies: 20 }),
    {
        CellConfigSchema { min_version_parts: 3, max_owners: 10, max_dependencies: 20 }
    }
}

/// A problem found in a specification: where, what, and which rule.
#[derive(Debug, Clone)]
pub struct ValidationError {
    pub path: String,
    pub message: String,
    pub rule: String,
}

impl ValidationError {
    pub fn new(path: &str, message: &str, rule: &str) -> (r: Self)
        ensures
            r.path@ == path@,
            r.message@ == message@,
            r.rule@ == rule@,
    {
        ValidationError { path: owned(path), message: owned(message), rule: owned(rule) }
    }
}

/// The outcome of a validation: errors make it invalid, warnings do not.
#[derive(Debug, Clone)]
pub struct ValidationResult {
    pub valid: bool,
    pub errors: Vec<ValidationError>,
    pub warnings: Vec<ValidationError>,
}

pub open spec fn issue_views(v: Seq<ValidationError>) -> Seq<(Seq<char>, Seq<char>, Seq<char>)> {
    v.map_values(|e: ValidationError| (e.path@, e.message@, e.rule@))
}

pub open spec fn when(b: bool, x: (Seq<char>, Seq<char>, Seq<char>)) -> Seq<(Seq<char>, Seq<char>, Seq<char>)> {
    if b { seq![x] } else { Seq::empty() }
}

/// The errors of a specification under `schema`.
pub open spec fn spec_errors(s: CellConfigSchema, spec: CellSpec) -> Seq<(Seq<char>, Seq<char>, Seq<char>)> {
    when(spec.name@.len() == 0, ("name"@, "name is required and cannot be empty"@, "required"@))
    + when(spec.description@.len() == 0, ("description"@, "description is required"@, "required"@))
    + when(spec.version@.len() == 0, ("version"@, "version is required"@, "required"@))
    + when(count_char(spec.version@, '.') + 1 < s.min_version_parts,
        ("version"@, "version must have at least "@ + decimal(s.min_version_parts as nat) + " parts (e.g., 1.0.0)"@, "format"@))
    + when(spec.owners@.len() == 0, ("owners"@, "at least one owner is required"@, "required"@))
}

/// The warnings of a specification under `schema`.
pub open spec fn spec_warnings(s: CellConfigSchema, spec: CellSpec) -> Seq<(Seq<char>, Seq<char>, Seq<char>)> {
    when(spec.owners@.len() > 0 && spec.owners@.len() > s.max_owners,
        ("owners"@, "too many owners: "@ + decimal(spec.owners@.len()) + " (max: "@ + decimal(s.max_owners as nat) + ")"@, "constraint"@))
    + when(spec.dependencies@.len() > s.max_dependencies,
        ("dependencies"@, "too many dependencies: "@ + decimal(spec.dependencies@.len()) + " (max: "@
            + decimal(s.max_dependencies as nat) + ")"@, "constraint"@))
    + when(spec.ports@.len() == 0, ("ports"@, "no ports defined"@, "best_practice"@))
    + when(spec.adapters@.len() == 0, ("adapters"@, "no adapters defined"@, "best_practice"@))
}

/// The message of a refused specification: `path: message` of each error, joined by `; `.
pub open spec fn errors_message(es: Seq<(Seq<char>, Seq<char>, Seq<char>)>) -> Seq<char> {
    join(es.map_values(|e: (Seq<char>, Seq<char>, Seq<char>)| e.0 + ": "@ + e.1), "; "@)
}

/// Validates cell specifications against a schema.
pub struct ConfigSchemaValidator {
    schema: CellConfigSchema,
}

impl ConfigSchemaValidator {
    pub closed spec fn schema_view(&self) -> CellConfigSchema {
        self.schema
    }

    /// A validator with the default schema.
    pub fn new() -> (r: Self)
        ensures
            r.schema_view() == (CellConfigSchema { min_version_parts: 3, max_owners: 10, max_dependencies: 20 }),
    {
        ConfigSchemaValidator { schema: CellConfigSchema::default() }
    }

    pub fn with_schema(schema: CellConfigSchema) -> (r: Self)
        ensures
            r.schema_view() == schema,
    {
        ConfigSchemaValidator { schema }
    }

    /// Checks `spec`: valid exactly when there is no error.
    #[verifier::rlimit(80)]
    pub fn validate(&self, spec: &CellSpec) -> (r: ValidationResult)
        ensures
            issue_views(r.errors@) == spec_errors(self.schema_view(), *spec),
            issue_views(r.warnings@) == spec_warnings(self.schema_view(), *spec),
            r.valid == (r.errors@.len() == 0),
    {
        let mut errors: Vec<ValidationError> = Vec::new();
        let mut warnings: Vec<ValidationError> = Vec::new();
        if spec.name.as_str().is_empty() {
            errors.push(ValidationError::new("name", "name is required and cannot be empty", "required"));
        }
        if spec.description.as_str().is_empty() {
            errors.push(ValidationError::new("description", "description is required", "required"));
        }
        if spec.version.as_str().is_empty() {
            errors.push(ValidationError::new("version", "version is required", "required"));
        }
        let vc = to_chars(spec.version.as_str());
        proof { lemma_count_char_le(vc@, '.'); }
        let dots = count_char_in(vc.as_slice(), '.');
        if self.schema.min_version_parts > 0 && dots < self.schema.min_version_parts - 1 {
            let mut m = owned("version must have at least ");
            push_decimal(&mut m, self.schema.min_version_parts);
            push_str(&mut m, " parts (e.g., 1.0.0)");
            errors.push(ValidationError { path: owned("version"), message: m, rule: owned("format") });
        }
        if spec.owners.len() == 0 {
            errors.push(ValidationError::new("owners", "at least one owner is required", "required"));
        } else if spec.owners.len() > self.schema.max_owners {
            let mut m = owned("too many owners: ");
            push_decimal(&mut m, spec.owners.len());
            push_str(&mut m, " (max: ");
            push_decimal(&mut m, self.schema.max_owners);
            push_str(&mut m, ")");
            warnings.push(ValidationError { path: owned("owners"), message: m, rule: owned("constraint") });
        }
        if spec.dependencies.len() > self.schema.max_dependencies {
            let mut m = owned("too many dependencies: ");
            push_decimal(&mut m, spec.dependencies.len());
            push_str(&mut m, " (max: ");
            push_decimal(&mut m, self.schema.max_dependencies);
            push_str(&mut m, ")");
            warnings.push(ValidationError { path: owned("dependencies"), message: m, rule: owned("constraint") });
        }
        if spec.ports.len() == 0 {
            warnings.push(ValidationError::new("ports", "no ports defined", "best_practice"));
        }
        if spec.adapters.len() == 0 {
            warnings.push(ValidationError::new("adapters", "no adapters defined", "best_practice"));
        }
        assert(issue_views(errors@) =~= spec_errors(self.schema, *spec));
        assert(issue_views(warnings@) =~= spec_warnings(self.schema, *spec));
        let valid = errors.len() == 0;
        ValidationResult { valid, errors, warnings }
    }

    /// Checks `spec`; a specification with errors is refused with their messages.
    pub fn validate_or_err(&self, spec: &CellSpec) -> (r: CellResult<ValidationResult>)
        ensures
            spec_errors(self.schema_view(), *spec).len() == 0 ==> (r matches Ok(v) && v.valid
                && v.errors@.len() == 0
                && issue_views(v.warnings@) == spec_warnings(self.schema_view(), *spec)),
            spec_errors(self.schema_view(), *spec).len() > 0 ==> (r matches Err(CellError::Config(m))
                && m@ == errors_message(spec_errors(self.schema_view(), *spec))),
    {
        let result = self.validate(spec);
        if result.valid {
            Ok(result)
        } else {
            let mut parts: Vec<String> = Vec::new();
            let n = result.errors.len();
            let ghost ev = issue_views(result.errors@);
            for i in 0..n
                invariant
                    n == result.errors@.len(),
                    ev == issue_views(result.errors@),
                    parts@.len() == i,
                    forall|k: int| 0 <= k < i ==> (#[trigger] parts@[k])@ == ev[k].0 + ": "@ + ev[k].1,
            {
                let e = &result.errors[i];
                let mut p = e.path.clone();
                push_str(&mut p, ": ");
                push_str(&mut p, e.message.as_str());
                parts.push(p);
            }
            let mut m = String::new();
            crate::text::push_join(&mut m, &parts, "; ");
            assert(parts@.map_values(|x: String| x@) =~= ev.map_values(|e: (Seq<char>, Seq<char>, Seq<char>)| e.0 + ": "@ + e.1));
            assert(Seq::<char>::empty() + errors_message(ev) =~= errors_message(ev));
            Err(CellError::Config(m))
        }
    }
}

impl Default for ConfigSchemaValidator {
    fn default() -> (r: Self)
        ensures
            r.schema_view() == (CellConfigSchema { min_version_parts: 3, max_owners: 10, max_dependencies: 20 }),
    {
        Self::new()
    }
}

} // verus!
