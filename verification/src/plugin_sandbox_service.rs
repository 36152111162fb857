//! Plugin sandboxes: creation, resource limits, execution accounting.
use vstd::prelude::*;
use crate::text::{owned, push_str, str_eq};
use crate::errors::{CellError, CellResult};
use crate::clock::now_rfc3339;

verus! {

/// What is reported of a sandbox.
#[derive(Debug, Clone)]
pub struct SandboxInfo {
    pub id: String,
    pub plugin_id: String,
    pub status: String,
    pub created_at: String,
    pub started_at: Option<String>,
    pub total_calls: u64,
    pub peak_memory_bytes: u64,
}

/// The resource limits of a sandbox.
#[derive(Debug, Clone, Copy, PartialEq, Eq, Structural)]
pub struct SandboxLimits {
    pub memory_bytes: u64,
    pub execution_time_ms: u64,
    pub max_call_count: u64,
    pub cpu_percent: u32,
}

/// The outcome of running a command in a sandbox.
#[derive(Debug, Clone)]
pub struct ExecResult {
    pub success: bool,
    pub output: Option<String>,
    pub error: Option<String>,
    pub duration_ms: u64,
    pub memory_used_bytes: u64,
}

/// The lifecycle state of a sandbox.
#[derive(Debug, Clone, Copy, PartialEq, Eq, Structural)]
pub enum SandboxStatus {
    Created,
    Running,
}

pub open spec fn status_label(s: SandboxStatus) -> Seq<char> {
    match s {
        SandboxStatus::Created => "Created"@,
        SandboxStatus::Running => "Running"@,
    }
}

fn status_str(s: SandboxStatus) -> (r: &'static str)
    ensures
        r@ == status_label(s),
{
    match s {
        SandboxStatus::Created => "Created",
        SandboxStatus::Running => "Running",
    }
}

/// Limits given to every sandbox: 128 MiB, five seconds, a thousand calls,
/// half a CPU.
pub open spec fn default_limits() -> SandboxLimits {
    SandboxLimits {
        memory_bytes: 134217728,
        execution_time_ms: 5000,
        max_call_count: 1000,
        cpu_percent: 50,
    }
}

/// Time and memory charged for one command.
pub const EXEC_DURATION_MS: u64 = 100;
pub const EXEC_MEMORY_BYTES: u64 = 1048576;

struct Sandbox {
    id: String,
    plugin_id: String,
    status: SandboxStatus,
    created_at: String,
    started_at: Option<String>,
    total_calls: u64,
    peak_memory_bytes: u64,
}

/// A sandbox as seen by the contracts.
pub struct SandboxView {
    pub id: Seq<char>,
    pub plugin_id: Seq<char>,
    pub status: SandboxStatus,
    pub total_calls: nat,
    pub peak_memory_bytes: nat,
}

spec fn sandbox_view(s: Sandbox) -> SandboxView {
    SandboxView {
        id: s.id@,
        plugin_id: s.plugin_id@,
        status: s.status,
        total_calls: s.total_calls as nat,
        peak_memory_bytes: s.peak_memory_bytes as nat,
    }
}

/// What the report shows of a sandbox, but for its time stamps.
pub open spec fn info_matches(i: SandboxInfo, v: SandboxView) -> bool {
    &&& i.id@ == v.id
    &&& i.plugin_id@ == v.plugin_id
    &&& i.status@ == status_label(v.status)
    &&& i.total_calls as nat == v.total_calls
    &&& i.peak_memory_bytes as nat == v.peak_memory_bytes
}

/// Position of the sandbox named `id`, if any.
pub open spec fn find_sandbox(s: Seq<SandboxView>, id: Seq<char>) -> Option<int> {
    if exists|i: int| 0 <= i < s.len() && s[i].id == id {
        Some(choose|i: int| 0 <= i < s.len() && s[i].id == id)
    } else {
        None
    }
}

/// Creates plugin sandboxes and runs commands in them within their limits.
pub struct PluginSandboxService {
    sandboxes: Vec<Sandbox>,
}

impl PluginSandboxService {
    /// The sandboxes in the order they were created.
    pub closed spec fn view_sandboxes(&self) -> Seq<SandboxView> {
        self.sandboxes@.map_values(|s: Sandbox| sandbox_view(s))
    }

    /// No two sandboxes share a name, and no count runs past its limit.
    pub open spec fn wf(&self) -> bool {
        &&& forall|i: int, j: int|
            0 <= i < j < self.view_sandboxes().len() ==> self.view_sandboxes()[i].id != self.view_sandboxes()[j].id
        &&& forall|i: int|
            0 <= i < self.view_sandboxes().len() ==> (#[trigger] self.view_sandboxes()[i]).total_calls
                <= default_limits().max_call_count && self.view_sandboxes()[i].peak_memory_bytes <= u64::MAX
    }

    pub fn new() -> (r: Self)
        ensures
            r.wf(),
            r.view_sandboxes().len() == 0,
    {
        PluginSandboxService { sandboxes: Vec::new() }
    }

    fn index_of(&self, name: &str) -> (r: Option<usize>)
        requires
            self.wf(),
        ensures
            r is None <==> find_sandbox(self.view_sandboxes(), name@) is None,
            r matches Some(i) ==> find_sandbox(self.view_sandboxes(), name@) == Some(i as int)
                && i < self.view_sandboxes().len() && self.view_sandboxes()[i as int].id == name@,
    {
        let n = self.sandboxes.len();
        let ghost v = self.view_sandboxes();
        for i in 0..n
            invariant
                n == self.sandboxes@.len(),
                v == self.view_sandboxes(),
                self.wf(),
                forall|k: int| 0 <= k < i ==> v[k].id != name@,
        {
            assert(v[i as int].id == self.sandboxes@[i as int].id@);
            if str_eq(self.sandboxes[i].id.as_str(), name) {
                assert(exists|k: int| 0 <= k < v.len() && v[k].id == name@);
                let ghost c = choose|k: int| 0 <= k < v.len() && v[k].id == name@;
                assert(c == i) by {
                    if c != i as int {
                        if c < i {} else { assert(v[i as int].id != v[c].id); }
                    }
                }
                return Some(i);
            }
        }
        None
    }

    fn info(s: &Sandbox) -> (r: SandboxInfo)
        ensures
            info_matches(r, sandbox_view(*s)),
            r.started_at is None <==> s.started_at is None,
    {
        SandboxInfo {
            id: s.id.clone(),
            plugin_id: s.plugin_id.clone(),
            status: owned(status_str(s.status)),
            created_at: s.created_at.clone(),
            started_at: match &s.started_at {
                Some(t) => Some(t.clone()),
                None => None,
            },
            total_calls: s.total_calls,
            peak_memory_bytes: s.peak_memory_bytes,
        }
    }

    /// Creates the sandbox `name` for plugin `plugin-<name>`; a name in use
    /// is refused and nothing changes.
    pub fn create_sandbox(&mut self, name: &str) -> (r: CellResult<SandboxInfo>)
        requires
            old(self).wf(),
        ensures
            final(self).wf(),
            find_sandbox(old(self).view_sandboxes(), name@) is Some ==> (r matches Err(CellError::Other(m))
                && m@ == "Sandbox already exists: "@ + name@) && final(self).view_sandboxes() == old(self).view_sandboxes(),
            find_sandbox(old(self).view_sandboxes(), name@) is None ==> r is Ok && {
                let v = SandboxView {
                    id: name@,
                    plugin_id: "plugin-"@ + name@,
                    status: SandboxStatus::Created,
                    total_calls: 0,
                    peak_memory_bytes: 0,
                };
                &&& final(self).view_sandboxes() == old(self).view_sandboxes().push(v)
                &&& info_matches(r->Ok_0, v)
                &&& r->Ok_0.started_at is None
            },
    {
        match self.index_of(name) {
            Some(_) => {
                let mut m = owned("Sandbox already exists: ");
                push_str(&mut m, name);
                Err(CellError::Other(m))
            },
            None => {
                let mut plugin = owned("plugin-");
                push_str(&mut plugin, name);
                let s = Sandbox {
                    id: owned(name),
                    plugin_id: plugin,
                    status: SandboxStatus::Created,
                    created_at: now_rfc3339(),
                    started_at: None,
                    total_calls: 0,
                    peak_memory_bytes: 0,
                };
                let info = Self::info(&s);
                let ghost before = self.view_sandboxes();
                self.sandboxes.push(s);
                proof {
                    assert(self.view_sandboxes() =~= before.push(sandbox_view(s)));
                    assert forall|i: int, j: int|
                        0 <= i < j < self.view_sandboxes().len() implies self.view_sandboxes()[i].id
                        != self.view_sandboxes()[j].id by {
                        if j == before.len() {
                            assert(before[i].id != name@);
                        }
                    }
                }
                Ok(info)
            },
        }
    }

    /// Every sandbox, in the order of creation.
    pub fn list_sandboxes(&self) -> (r: CellResult<Vec<SandboxInfo>>)
        ensures
            r is Ok,
            r->Ok_0@.len() == self.view_sandboxes().len(),
            forall|i: int| 0 <= i < self.view_sandboxes().len() ==> info_matches(#[trigger] r->Ok_0@[i], self.view_sandboxes()[i]),
    {
        let mut out: Vec<SandboxInfo> = Vec::new();
        let n = self.sandboxes.len();
        for i in 0..n
            invariant
                n == self.sandboxes@.len(),
                out@.len() == i,
                forall|k: int| 0 <= k < i ==> info_matches(#[trigger] out@[k], self.view_sandboxes()[k]),
        {
            out.push(Self::info(&self.sandboxes[i]));
        }
        Ok(out)
    }

    /// The limits of sandbox `name`.
    pub fn get_sandbox_limits(&self, name: &str) -> (r: CellResult<SandboxLimits>)
        requires
            self.wf(),
        ensures
            find_sandbox(self.view_sandboxes(), name@) is Some ==> r == Ok::<SandboxLimits, CellError>(default_limits()),
            find_sandbox(self.view_sandboxes(), name@) is None ==> (r matches Err(CellError::NotFound(m)) && m@ == name@),
    {
        match self.index_of(name) {
            Some(_) => Ok(SandboxLimits {
                memory_bytes: 134217728,
                execution_time_ms: 5000,
                max_call_count: 1000,
                cpu_percent: 50,
            }),
            None => Err(CellError::NotFound(owned(name))),
        }
    }

    /// Runs `cmd` in sandbox `name`: a run is charged to the sandbox while
    /// its call limit allows, and refused in the result once it is reached.
    pub fn exec_in_sandbox(&mut self, name: &str, cmd: &str) -> (r: CellResult<ExecResult>)
        requires
            old(self).wf(),
        ensures
            final(self).wf(),
            find_sandbox(old(self).view_sandboxes(), name@) is None ==> (r matches Err(CellError::NotFound(m))
                && m@ == name@) && final(self).view_sandboxes() == old(self).view_sandboxes(),
            find_sandbox(old(self).view_sandboxes(), name@) matches Some(i) ==> {
                let s = old(self).view_sandboxes()[i];
                &&& r is Ok
                &&& r->Ok_0.duration_ms == EXEC_DURATION_MS
                &&& r->Ok_0.memory_used_bytes == EXEC_MEMORY_BYTES
                &&& if s.total_calls < default_limits().max_call_count {
                    &&& r->Ok_0.success
                    &&& r->Ok_0.output matches Some(o) && o@ == "Command executed: "@ + cmd@
                    &&& r->Ok_0.error is None
                    &&& final(self).view_sandboxes() == old(self).view_sandboxes().update(i, SandboxView {
                        status: SandboxStatus::Running,
                        total_calls: s.total_calls + 1,
                        peak_memory_bytes: if s.peak_memory_bytes < EXEC_MEMORY_BYTES { EXEC_MEMORY_BYTES as nat } else { s.peak_memory_bytes },
                        ..s
                    })
                } else {
                    &&& !r->Ok_0.success
                    &&& r->Ok_0.output is None
                    &&& r->Ok_0.error matches Some(e) && e@ == "Call limit exceeded: "@ + name@
                    &&& final(self).view_sandboxes() == old(self).view_sandboxes()
                }
            },
    {
        match self.index_of(name) {
            None => Err(CellError::NotFound(owned(name))),
            Some(i) => {
                let ghost before = self.view_sandboxes();
                assert(before[i as int].total_calls == self.sandboxes@[i as int].total_calls);
                if self.sandboxes[i].total_calls < 1000 {
                    let old_s = &self.sandboxes[i];
                    let peak = if old_s.peak_memory_bytes < EXEC_MEMORY_BYTES { EXEC_MEMORY_BYTES } else { old_s.peak_memory_bytes };
                    let started = match &old_s.started_at {
                        Some(t) => t.clone(),
                        None => now_rfc3339(),
                    };
                    let s = Sandbox {
                        id: old_s.id.clone(),
                        plugin_id: old_s.plugin_id.clone(),
                        status: SandboxStatus::Running,
                        created_at: old_s.created_at.clone(),
                        started_at: Some(started),
                        total_calls: old_s.total_calls + 1,
                        peak_memory_bytes: peak,
                    };
                    self.sandboxes.set(i, s);
                    proof {
                        assert(self.view_sandboxes() =~= before.update(i as int, sandbox_view(s)));
                    }
                    let mut out = owned("Command executed: ");
                    push_str(&mut out, cmd);
                    Ok(ExecResult {
                        success: true,
                        output: Some(out),
                        error: None,
                        duration_ms: EXEC_DURATION_MS,
                        memory_used_bytes: EXEC_MEMORY_BYTES,
                    })
                } else {
                    let mut e = owned("Call limit exceeded: ");
                    push_str(&mut e, name);
                    Ok(ExecResult {
                        success: false,
                        output: None,
                        error: Some(e),
                        duration_ms: EXEC_DURATION_MS,
                        memory_used_bytes: EXEC_MEMORY_BYTES,
                    })
                }
            },
        }
    }

    /// Removes sandbox `name`; an unknown name is refused.
    pub fn destroy_sandbox(&mut self, name: &str) -> (r: CellResult<()>)
        requires
            old(self).wf(),
        ensures
            final(self).wf(),
            find_sandbox(old(self).view_sandboxes(), name@) matches Some(i) ==> r is Ok
                && final(self).view_sandboxes() == old(self).view_sandboxes().remove(i),
            find_sandbox(old(self).view_sandboxes(), name@) is None ==> (r matches Err(CellError::Other(m))
                && m@ == "Sandbox not found: "@ + name@) && final(self).view_sandboxes() == old(self).view_sandboxes(),
    {
        match self.index_of(name) {
            Some(i) => {
                let ghost before = self.view_sandboxes();
                self.sandboxes.remove(i);
                proof {
                    assert(self.view_sandboxes() =~= before.remove(i as int));
                    assert forall|a: int, b: int|
                        0 <= a < b < self.view_sandboxes().len() implies self.view_sandboxes()[a].id
                        != self.view_sandboxes()[b].id by {
                        let a2 = if a < i { a } else { a + 1 };
                        let b2 = if b < i { b } else { b + 1 };
                        assert(self.view_sandboxes()[a] == before[a2]);
                        assert(self.view_sandboxes()[b] == before[b2]);
                    }
                    assert forall|a: int| 0 <= a < self.view_sandboxes().len() implies (#[trigger] self.view_sandboxes()[a]).total_calls
                        <= default_limits().max_call_count && self.view_sandboxes()[a].peak_memory_bytes <= u64::MAX by {
                        let a2 = if a < i { a } else { a + 1 };
                        assert(self.view_sandboxes()[a] == before[a2]);
                    }
                }
                Ok(())
            },
            None => {
                let mut m = owned("Sandbox not found: ");
                push_str(&mut m, name);
                Err(CellError::Other(m))
            },
        }
    }
}

impl Default for PluginSandboxService {
    fn default() -> (r: Self)
        ensures
            r.wf(),
            r.view_sandboxes().len() == 0,
    {
        PluginSandboxService::new()
    }
}


/// Creating a sandbox under a new name and then destroying it by that name
/// leaves the sandboxes as they were.
pub proof fn law_create_then_destroy(before: Seq<SandboxView>, v: SandboxView)
    requires
        find_sandbox(before, v.id) is None,
    ensures
        find_sandbox(before.push(v), v.id) == Some(before.len() as int),
        before.push(v).remove(before.len() as int) == before,
{
    let after = before.push(v);
    assert(after[before.len() as int].id == v.id);
    let c = choose|i: int| 0 <= i < after.len() && after[i].id == v.id;
    if c < before.len() {
        assert(after[c] == before[c]);
    }
    assert(after.remove(before.len() as int) =~= before);
}

} // verus!
