//! Complexity quotas and event schemas: registries that hold no entries yet.
use vstd::prelude::*;
use crate::text::{owned, push_str, push_decimal, decimal};
use crate::errors::{CellError, CellResult};

verus! {

/// A complexity quota: the cyclomatic complexity spent and allowed.
#[derive(Debug, Clone)]
pub struct ComplexityQuota {
    pub name: String,
    pub current_cyclomatic: u32,
    pub cyclomatic_complexity_limit: u32,
}

/// Looks up and reports complexity quotas.
pub struct ComplexityQuotaService;

impl ComplexityQuotaService {
    pub fn new() -> (r: Self) {
        ComplexityQuotaService
    }

    /// The quota `name`: no quota is registered, so every name is unknown.
    pub fn get_quota(&self, name: &str) -> (r: CellResult<ComplexityQuota>)
        ensures
            r matches Err(CellError::NotFound(m)) && m@ == "复杂度配额 '"@ + name@ + "' 不存在"@,
    {
        let mut m = owned("复杂度配额 '");
        push_str(&mut m, name);
        push_str(&mut m, "' 不存在");
        Err(CellError::NotFound(m))
    }

    /// Whether the quota `name` has room left; an unknown quota has none.
    pub fn check_quota(&self, name: &str) -> (r: CellResult<bool>)
        ensures
            r == Ok::<bool, CellError>(false),
    {
        match self.get_quota(name) {
            Ok(q) => Ok(q.current_cyclomatic < q.cyclomatic_complexity_limit),
            Err(_) => Ok(false),
        }
    }

    /// The text of a quota, with one decimal as for fractional measures.
    pub fn format_quota(&self, quota: &ComplexityQuota) -> (r: String)
        ensures
            r@ == "📊 复杂度配额: "@ + quota.name@ + "\n  圈复杂度: "@ + decimal(quota.current_cyclomatic as nat) + ".0/"@
                + decimal(quota.cyclomatic_complexity_limit as nat) + ".0\n  状态: "@
                + if quota.current_cyclomatic < quota.cyclomatic_complexity_limit { "✅ 可用"@ } else { "❌ 超出"@ },
    {
        let mut o = owned("📊 复杂度配额: ");
        push_str(&mut o, quota.name.as_str());
        push_str(&mut o, "\n  圈复杂度: ");
        push_decimal(&mut o, quota.current_cyclomatic as usize);
        push_str(&mut o, ".0/");
        push_decimal(&mut o, quota.cyclomatic_complexity_limit as usize);
        push_str(&mut o, ".0\n  状态: ");
        push_str(&mut o, if quota.current_cyclomatic < quota.cyclomatic_complexity_limit { "✅ 可用" } else { "❌ 超出" });
        o
    }
}

impl Default for ComplexityQuotaService {
    fn default() -> (r: Self) {
        ComplexityQuotaService
    }
}

/// The schema of an event: its name, version and field names.
#[derive(Debug, Clone)]
pub struct EventSchema {
    pub name: String,
    pub version: String,
    pub fields: Vec<String>,
}

/// Lists the registered event schemas.
pub struct EventSchemaService;

impl EventSchemaService {
    pub fn new() -> (r: Self) {
        EventSchemaService
    }

    /// The registered schemas: none are registered.
    pub fn list_schemas(&self) -> (r: Vec<EventSchema>)
        ensures
            r@.len() == 0,
    {
        Vec::new()
    }
}

impl Default for EventSchemaService {
    fn default() -> (r: Self) {
        EventSchemaService
    }
}

} // verus!
