//! The structure of a Rust source file: its functions, types, traits and
//! imports, with totals.
use vstd::prelude::*;
use crate::text::{lines, views, str_lines};

verus! {

/// A function of a source file.
#[derive(Debug, Clone)]
pub struct FunctionInfo {
    pub name: String,
    pub line: usize,
    pub is_public: bool,
    pub is_async: bool,
    pub params_count: usize,
}

/// A struct of a source file.
#[derive(Debug, Clone)]
pub struct StructInfo {
    pub name: String,
    pub line: usize,
    pub fields_count: usize,
    pub is_public: bool,
}

/// An enum of a source file.
#[derive(Debug, Clone)]
pub struct EnumInfo {
    pub name: String,
    pub line: usize,
    pub variants_count: usize,
}

/// A trait of a source file.
#[derive(Debug, Clone)]
pub struct TraitInfo {
    pub name: String,
    pub line: usize,
    pub methods_count: usize,
}

/// What a source file declares.
#[derive(Debug, Clone)]
pub struct CodeStructure {
    pub functions: Vec<FunctionInfo>,
    pub structs: Vec<StructInfo>,
    pub enums: Vec<EnumInfo>,
    pub traits: Vec<TraitInfo>,
    pub imports: Vec<String>,
    pub total_lines: usize,
    pub total_functions: usize,
    pub total_structs: usize,
}

impl CodeStructure {
    /// The structure of `source` from the items found in it: the totals
    /// count its lines, functions and structs.
    pub fn assemble(functions: Vec<FunctionInfo>, structs: Vec<StructInfo>, enums: Vec<EnumInfo>,
        traits: Vec<TraitInfo>, imports: Vec<String>, source: &str) -> (r: CodeStructure)
        ensures
            r.functions@ == functions@,
            r.structs@ == structs@,
            r.enums@ == enums@,
            r.traits@ == traits@,
            r.imports@ == imports@,
            r.total_lines == lines(source@).len(),
            r.total_functions == functions@.len(),
            r.total_structs == structs@.len(),
    {
        let ls = str_lines(source);
        assert(views(ls@).len() == ls@.len());
        let total_functions = functions.len();
        let total_structs = structs.len();
        CodeStructure {
            functions,
            structs,
            enums,
            traits,
            imports,
            total_lines: ls.len(),
            total_functions,
            total_structs,
        }
    }
}

} // verus!
