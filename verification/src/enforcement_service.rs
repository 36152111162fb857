//! Enforcement of the architecture rules at commit, push and build time:
//! policies, the checks they turn into, and the reports.
use vstd::prelude::*;
use crate::text::{owned, push_str, push_decimal, decimal, str_eq, join, push_join};
use crate::errors::{CellError, CellResult};
use crate::arch_service::Violation;

verus! {

/// How a failed check is treated.
#[derive(Debug, Clone, Copy, PartialEq, Eq, Structural)]
pub enum PolicyLevel {
    Allow,
    Warn,
    Block,
}

pub open spec fn policy_label(p: PolicyLevel) -> Seq<char> {
    match p {
        PolicyLevel::Allow => "允许"@,
        PolicyLevel::Warn => "警告"@,
        PolicyLevel::Block => "阻断"@,
    }
}

impl PolicyLevel {
    pub fn label(&self) -> (r: &'static str)
        ensures
            r@ == policy_label(*self),
    {
        match self {
            PolicyLevel::Allow => "允许",
            PolicyLevel::Warn => "警告",
            PolicyLevel::Block => "阻断",
        }
    }

    pub fn is_blocking(&self) -> (r: bool)
        ensures
            r == (*self == PolicyLevel::Block),
    {
        match self {
            PolicyLevel::Block => true,
            _ => false,
        }
    }
}

/// The level of each kind of check.
#[derive(Debug, Clone, Copy, PartialEq, Eq, Structural)]
pub struct EnforcementPolicy {
    pub entropy_degradation: PolicyLevel,
    pub architecture_violations: PolicyLevel,
    pub test_failure: PolicyLevel,
    pub naming_violations: PolicyLevel,
    pub circular_dependency: PolicyLevel,
    pub untracked_decisions: PolicyLevel,
}

#[derive(Debug, Clone, Copy, PartialEq, Eq, Structural)]
pub struct GitHooksConfig {
    pub pre_commit: bool,
    pub pre_push: bool,
    pub commit_msg: bool,
    pub pre_rebase: bool,
}

#[derive(Debug, Clone, Copy, PartialEq, Eq, Structural)]
pub struct BuildGuardConfig {
    pub enabled: bool,
    pub check_architecture: bool,
    pub check_entropy: bool,
    pub check_tests: bool,
}

/// The CI service a gate runs on.
#[derive(Debug, Clone, Copy, PartialEq, Eq, Structural)]
pub enum CiProvider {
    Github,
    Gitlab,
    Jenkins,
    Gitee,
    NoCi,
}

pub open spec fn provider_label(p: CiProvider) -> Seq<char> {
    match p {
        CiProvider::Github => "GitHub Actions"@,
        CiProvider::Gitlab => "GitLab CI"@,
        CiProvider::Jenkins => "Jenkins"@,
        CiProvider::Gitee => "Gitee"@,
        CiProvider::NoCi => "None"@,
    }
}

impl CiProvider {
    pub fn label(&self) -> (r: &'static str)
        ensures
            r@ == provider_label(*self),
    {
        match self {
            CiProvider::Github => "GitHub Actions",
            CiProvider::Gitlab => "GitLab CI",
            CiProvider::Jenkins => "Jenkins",
            CiProvider::Gitee => "Gitee",
            CiProvider::NoCi => "None",
        }
    }
}

#[derive(Debug, Clone)]
pub struct CiGateConfig {
    pub provider: CiProvider,
    pub enabled_checks: Vec<String>,
}

/// The whole enforcement configuration.
#[derive(Debug, Clone)]
pub struct EnforcementConfig {
    pub enabled: bool,
    pub policy: EnforcementPolicy,
    pub git_hooks: GitHooksConfig,
    pub build_guard: BuildGuardConfig,
    pub ci_gate: CiGateConfig,
}

/// One check and its outcome.
#[derive(Debug, Clone)]
pub struct EnforcementCheck {
    pub name: String,
    pub level: PolicyLevel,
    pub passed: bool,
    pub message: String,
    pub details: Vec<String>,
}

/// The checks of one run.
#[derive(Debug, Clone)]
pub struct EnforcementReport {
    pub passed: bool,
    pub checks: Vec<EnforcementCheck>,
    pub block_count: usize,
    pub warn_count: usize,
    pub generated_at: String,
}

pub open spec fn default_policy() -> EnforcementPolicy {
    EnforcementPolicy {
        entropy_degradation: PolicyLevel::Block,
        architecture_violations: PolicyLevel::Block,
        test_failure: PolicyLevel::Block,
        naming_violations: PolicyLevel::Warn,
        circular_dependency: PolicyLevel::Block,
        untracked_decisions: PolicyLevel::Warn,
    }
}

pub open spec fn strings(v: Seq<String>) -> Seq<Seq<char>> {
    v.map_values(|s: String| s@)
}

/// The level a check gets: blocking only where the policy blocks.
pub open spec fn level_for(policy: PolicyLevel, passed: bool) -> PolicyLevel {
    if policy == PolicyLevel::Block && !passed {
        PolicyLevel::Block
    } else if !passed {
        PolicyLevel::Warn
    } else {
        PolicyLevel::Allow
    }
}

fn level_of(policy: PolicyLevel, passed: bool) -> (r: PolicyLevel)
    ensures
        r == level_for(policy, passed),
{
    if policy == PolicyLevel::Block && !passed {
        PolicyLevel::Block
    } else if !passed {
        PolicyLevel::Warn
    } else {
        PolicyLevel::Allow
    }
}

/// Failed checks at `level`.
pub open spec fn failed_at(cs: Seq<EnforcementCheck>, level: PolicyLevel) -> nat
    decreases cs.len(),
{
    if cs.len() == 0 {
        0
    } else {
        failed_at(cs.drop_last(), level) + if cs.last().level == level && !cs.last().passed { 1nat } else { 0nat }
    }
}

fn count_failed(cs: &Vec<EnforcementCheck>, level: PolicyLevel) -> (r: usize)
    ensures
        r as nat == failed_at(cs@, level),
{
    let mut n: usize = 0;
    for i in 0..cs.len()
        invariant
            n as nat == failed_at(cs@.take(i as int), level),
            n <= i,
    {
        assert(cs@.take(i + 1).drop_last() =~= cs@.take(i as int));
        if cs[i].level == level && !cs[i].passed {
            n = n + 1;
        }
    }
    assert(cs@.take(cs@.len() as int) =~= cs@);
    n
}

/// The detail line of a violation.
pub open spec fn violation_detail(v: Violation) -> Seq<char> {
    v.from_module@ + " -> "@ + v.to_module@ + ": "@ + v.message@
}

/// Runs enforcement checks and keeps the policy.
pub struct EnforcementService;

impl EnforcementService {
    pub fn new() -> (r: Self) {
        EnforcementService
    }

    /// The configuration a project starts with.
    pub fn default_config() -> (r: EnforcementConfig)
        ensures
            r.enabled,
            r.policy == default_policy(),
            r.git_hooks == (GitHooksConfig { pre_commit: true, pre_push: true, commit_msg: false, pre_rebase: false }),
            r.build_guard == (BuildGuardConfig { enabled: true, check_architecture: true, check_entropy: true, check_tests: true }),
            r.ci_gate.provider == CiProvider::Github,
            strings(r.ci_gate.enabled_checks@) == seq!["architecture"@, "entropy"@, "tests"@],
    {
        let mut checks: Vec<String> = Vec::new();
        checks.push(owned("architecture"));
        checks.push(owned("entropy"));
        checks.push(owned("tests"));
        assert(strings(checks@) =~= seq!["architecture"@, "entropy"@, "tests"@]);
        EnforcementConfig {
            enabled: true,
            policy: EnforcementPolicy {
                entropy_degradation: PolicyLevel::Block,
                architecture_violations: PolicyLevel::Block,
                test_failure: PolicyLevel::Block,
                naming_violations: PolicyLevel::Warn,
                circular_dependency: PolicyLevel::Block,
                untracked_decisions: PolicyLevel::Warn,
            },
            git_hooks: GitHooksConfig { pre_commit: true, pre_push: true, commit_msg: false, pre_rebase: false },
            build_guard: BuildGuardConfig { enabled: true, check_architecture: true, check_entropy: true, check_tests: true },
            ci_gate: CiGateConfig { provider: CiProvider::Github, enabled_checks: checks },
        }
    }

    /// Sets the level of policy `policy_name`; an unknown name is refused
    /// and nothing changes.
    pub fn set_policy(&self, config: &mut EnforcementConfig, policy_name: &str, level: PolicyLevel) -> (r: CellResult<()>)
        ensures
            final(config).enabled == old(config).enabled,
            final(config).git_hooks == old(config).git_hooks,
            final(config).build_guard == old(config).build_guard,
            final(config).ci_gate == old(config).ci_gate,
            ({
                let p = old(config).policy;
                let n = policy_name@;
                if n == "entropy_degradation"@ {
                    r is Ok && final(config).policy == (EnforcementPolicy { entropy_degradation: level, ..p })
                } else if n == "architecture_violations"@ {
                    r is Ok && final(config).policy == (EnforcementPolicy { architecture_violations: level, ..p })
                } else if n == "test_failure"@ {
                    r is Ok && final(config).policy == (EnforcementPolicy { test_failure: level, ..p })
                } else if n == "naming_violations"@ {
                    r is Ok && final(config).policy == (EnforcementPolicy { naming_violations: level, ..p })
                } else if n == "circular_dependency"@ {
                    r is Ok && final(config).policy == (EnforcementPolicy { circular_dependency: level, ..p })
                } else if n == "untracked_decisions"@ {
                    r is Ok && final(config).policy == (EnforcementPolicy { untracked_decisions: level, ..p })
                } else {
                    (r matches Err(CellError::Config(m)) && m@ == "Unknown policy: "@ + n) && final(config).policy == p
                }
            }),
    {
        if str_eq(policy_name, "entropy_degradation") {
            config.policy.entropy_degradation = level;
        } else if str_eq(policy_name, "architecture_violations") {
            config.policy.architecture_violations = level;
        } else if str_eq(policy_name, "test_failure") {
            config.policy.test_failure = level;
        } else if str_eq(policy_name, "naming_violations") {
            config.policy.naming_violations = level;
        } else if str_eq(policy_name, "circular_dependency") {
            config.policy.circular_dependency = level;
        } else if str_eq(policy_name, "untracked_decisions") {
            config.policy.untracked_decisions = level;
        } else {
            let mut m = owned("Unknown policy: ");
            push_str(&mut m, policy_name);
            return Err(CellError::Config(m));
        }
        Ok(())
    }

    /// The architecture check over the violations found: at most ten are detailed.
    pub fn check_architecture(&self, config: &EnforcementConfig, violations: &Vec<Violation>) -> (r: EnforcementCheck)
        ensures
            r.name@ == "架构合规检查"@,
            r.passed == (violations@.len() == 0),
            r.level == level_for(config.policy.architecture_violations, r.passed),
            r.message@ == if r.passed { "架构符合规范"@ } else { "发现 "@ + decimal(violations@.len()) + " 个架构违规"@ },
            strings(r.details@) == violations@.take(if violations@.len() < 10 { violations@.len() as int } else { 10 }).map_values(
                |v: Violation| violation_detail(v)),
    {
        let passed = violations.len() == 0;
        let shown: usize = if violations.len() < 10 { violations.len() } else { 10 };
        let mut details: Vec<String> = Vec::new();
        for i in 0..shown
            invariant
                shown <= violations@.len(),
                strings(details@) == violations@.take(i as int).map_values(|v: Violation| violation_detail(v)),
        {
            let v = &violations[i];
            let mut d = owned(v.from_module.as_str());
            push_str(&mut d, " -> ");
            push_str(&mut d, v.to_module.as_str());
            push_str(&mut d, ": ");
            push_str(&mut d, v.message.as_str());
            let ghost before = details@;
            details.push(d);
            assert(strings(details@) =~= strings(before).push(d@));
            assert(violations@.take(i + 1) =~= violations@.take(i as int).push(violations@[i as int]));
            assert(strings(details@) =~= violations@.take(i + 1).map_values(|v: Violation| violation_detail(v)));
        }
        let message = if passed {
            owned("架构符合规范")
        } else {
            let mut m = owned("发现 ");
            push_decimal(&mut m, violations.len());
            push_str(&mut m, " 个架构违规");
            m
        };
        EnforcementCheck {
            name: owned("架构合规检查"),
            level: level_of(config.policy.architecture_violations, passed),
            passed,
            message,
            details,
        }
    }

    /// The naming check: it passes, and never blocks.
    pub fn check_naming(&self, config: &EnforcementConfig) -> (r: EnforcementCheck)
        ensures
            r.name@ == "命名规范检查"@,
            r.passed,
            r.level == if config.policy.naming_violations == PolicyLevel::Block { PolicyLevel::Warn } else { config.policy.naming_violations },
            r.message@ == "命名规范检查通过"@,
            r.details@.len() == 0,
    {
        EnforcementCheck {
            name: owned("命名规范检查"),
            level: if config.policy.naming_violations == PolicyLevel::Block { PolicyLevel::Warn } else { config.policy.naming_violations },
            passed: true,
            message: owned("命名规范检查通过"),
            details: Vec::new(),
        }
    }

    /// The check of the test build, given whether it succeeded.
    pub fn check_tests(&self, config: &EnforcementConfig, passed: bool) -> (r: EnforcementCheck)
        ensures
            r.name@ == "测试编译检查"@,
            r.passed == passed,
            r.level == level_for(config.policy.test_failure, passed),
            r.message@ == if passed { "测试编译通过"@ } else { "测试编译失败"@ },
            r.details@.len() == 0,
    {
        EnforcementCheck {
            name: owned("测试编译检查"),
            level: level_of(config.policy.test_failure, passed),
            passed,
            message: if passed { owned("测试编译通过") } else { owned("测试编译失败") },
            details: Vec::new(),
        }
    }

    /// The check of dependency cycles: at most five are detailed.
    pub fn check_circular_dependency(&self, config: &EnforcementConfig, cycles: &Vec<Vec<String>>) -> (r: EnforcementCheck)
        ensures
            r.name@ == "循环依赖检查"@,
            r.passed == (cycles@.len() == 0),
            r.level == level_for(config.policy.circular_dependency, r.passed),
            r.message@ == if r.passed { "无循环依赖"@ } else { "发现 "@ + decimal(cycles@.len()) + " 个循环依赖"@ },
            strings(r.details@) == cycles@.take(if cycles@.len() < 5 { cycles@.len() as int } else { 5 }).map_values(
                |c: Vec<String>| join(strings(c@), " -> "@)),
    {
        let passed = cycles.len() == 0;
        let shown: usize = if cycles.len() < 5 { cycles.len() } else { 5 };
        let mut details: Vec<String> = Vec::new();
        for i in 0..shown
            invariant
                shown <= cycles@.len(),
                strings(details@) == cycles@.take(i as int).map_values(|c: Vec<String>| join(strings(c@), " -> "@)),
        {
            let mut d = String::new();
            push_join(&mut d, &cycles[i], " -> ");
            let ghost before = details@;
            details.push(d);
            assert(strings(details@) =~= strings(before).push(d@));
            assert(cycles@.take(i + 1) =~= cycles@.take(i as int).push(cycles@[i as int]));
            assert(strings(details@) =~= cycles@.take(i + 1).map_values(|c: Vec<String>| join(strings(c@), " -> "@)));
        }
        let message = if passed {
            owned("无循环依赖")
        } else {
            let mut m = owned("发现 ");
            push_decimal(&mut m, cycles.len());
            push_str(&mut m, " 个循环依赖");
            m
        };
        EnforcementCheck {
            name: owned("循环依赖检查"),
            level: level_of(config.policy.circular_dependency, passed),
            passed,
            message,
            details,
        }
    }

    /// The report of a run: it passes when nothing blocks.
    pub fn report(&self, checks: Vec<EnforcementCheck>, generated_at: &str) -> (r: EnforcementReport)
        ensures
            r.checks@ == checks@,
            r.block_count == failed_at(checks@, PolicyLevel::Block),
            r.warn_count == failed_at(checks@, PolicyLevel::Warn),
            r.passed == (r.block_count == 0),
            r.generated_at@ == generated_at@,
    {
        let block_count = count_failed(&checks, PolicyLevel::Block);
        let warn_count = count_failed(&checks, PolicyLevel::Warn);
        EnforcementReport {
            passed: block_count == 0,
            checks,
            block_count,
            warn_count,
            generated_at: owned(generated_at),
        }
    }

    /// The pre-commit run: architecture and naming, when the hook is on.
    pub fn run_pre_commit_check(&self, config: &EnforcementConfig, violations: &Vec<Violation>, generated_at: &str) -> (r: CellResult<EnforcementReport>)
        ensures
            r is Ok,
            r->Ok_0.checks@.len() == if config.git_hooks.pre_commit { 2nat } else { 0nat },
            r->Ok_0.passed == (r->Ok_0.block_count == 0),
            r->Ok_0.block_count == failed_at(r->Ok_0.checks@, PolicyLevel::Block),
    {
        let mut checks: Vec<EnforcementCheck> = Vec::new();
        if config.git_hooks.pre_commit {
            checks.push(self.check_architecture(config, violations));
            checks.push(self.check_naming(config));
        }
        Ok(self.report(checks, generated_at))
    }

    /// The pre-push run, when the hook is on: architecture, entropy (whose
    /// check is given), tests and cycles.
    pub fn run_pre_push_check(
        &self,
        config: &EnforcementConfig,
        violations: &Vec<Violation>,
        entropy_check: EnforcementCheck,
        tests_passed: bool,
        cycles: &Vec<Vec<String>>,
        generated_at: &str,
    ) -> (r: CellResult<EnforcementReport>)
        ensures
            r is Ok,
            r->Ok_0.checks@.len() == if config.git_hooks.pre_push { 4nat } else { 0nat },
            r->Ok_0.passed == (r->Ok_0.block_count == 0),
            r->Ok_0.block_count == failed_at(r->Ok_0.checks@, PolicyLevel::Block),
    {
        let mut checks: Vec<EnforcementCheck> = Vec::new();
        if config.git_hooks.pre_push {
            checks.push(self.check_architecture(config, violations));
            checks.push(entropy_check);
            checks.push(self.check_tests(config, tests_passed));
            checks.push(self.check_circular_dependency(config, cycles));
        }
        Ok(self.report(checks, generated_at))
    }

    /// The build guard, with each check it enables.
    pub fn run_build_guard(
        &self,
        config: &EnforcementConfig,
        violations: &Vec<Violation>,
        entropy_check: EnforcementCheck,
        tests_passed: bool,
        generated_at: &str,
    ) -> (r: CellResult<EnforcementReport>)
        ensures
            r is Ok,
            !config.build_guard.enabled ==> r->Ok_0.checks@.len() == 0,
            r->Ok_0.passed == (r->Ok_0.block_count == 0),
            r->Ok_0.block_count == failed_at(r->Ok_0.checks@, PolicyLevel::Block),
    {
        let mut checks: Vec<EnforcementCheck> = Vec::new();
        if config.build_guard.enabled {
            if config.build_guard.check_architecture {
                checks.push(self.check_architecture(config, violations));
            }
            if config.build_guard.check_entropy {
                checks.push(entropy_check);
            }
            if config.build_guard.check_tests {
                checks.push(self.check_tests(config, tests_passed));
            }
        }
        Ok(self.report(checks, generated_at))
    }

    /// The hooks to install.
    pub fn hooks_to_install(&self, config: &EnforcementConfig) -> (r: Vec<String>)
        ensures
            strings(r@) == (if config.git_hooks.pre_commit { seq!["pre-commit"@] } else { Seq::empty() })
                + (if config.git_hooks.pre_push { seq!["pre-push"@] } else { Seq::empty() }),
    {
        let mut r: Vec<String> = Vec::new();
        if config.git_hooks.pre_commit {
            r.push(owned("pre-commit"));
        }
        if config.git_hooks.pre_push {
            r.push(owned("pre-push"));
        }
        assert(strings(r@) =~= (if config.git_hooks.pre_commit { seq!["pre-commit"@] } else { Seq::empty() })
            + (if config.git_hooks.pre_push { seq!["pre-push"@] } else { Seq::empty() }));
        r
    }

    /// The script of hook `hook_type`, running `cell_bin`.
    pub fn generate_hook_script(&self, cell_bin: &str, hook_type: &str) -> (r: String)
        ensures
            r@ == hook_script(cell_bin@, hook_type@),
    {
        let cmd = if str_eq(hook_type, "pre-commit") {
            "enforcement pre-commit"
        } else if str_eq(hook_type, "pre-push") {
            "enforcement pre-push"
        } else {
            "enforcement check"
        };
        let action = if str_eq(hook_type, "pre-commit") {
            "commit"
        } else if str_eq(hook_type, "pre-push") {
            "push"
        } else {
            hook_type
        };
        let mut o = owned("#!/bin/sh\n# Cell Architecture Enforcement Hook\n# Managed by `cell enforcement install-hooks`\n\necho \"🔍 Cell Enforcement: Running ");
        push_str(&mut o, hook_type);
        push_str(&mut o, " checks...\"\n\n\"");
        push_str(&mut o, cell_bin);
        push_str(&mut o, "\" ");
        push_str(&mut o, cmd);
        push_str(&mut o, "\n\nif [ $? -ne 0 ]; then\necho \"\"\necho \"❌ ");
        push_str(&mut o, hook_type);
        push_str(&mut o, " checks FAILED\"\necho \"   Run 'cell enforcement status' for details\"\necho \"   To bypass (not recommended): git ");
        push_str(&mut o, action);
        push_str(&mut o, " --no-verify\"\nexit 1\nfi\n\necho \"✅ ");
        push_str(&mut o, hook_type);
        push_str(&mut o, " checks PASSED\"\nexit 0\n");
        o
    }
}

/// The text of a hook script: the line continuations of the template drop
/// the leading blanks of every line.
pub open spec fn hook_script(bin: Seq<char>, hook: Seq<char>) -> Seq<char> {
    let cmd = if hook == "pre-commit"@ {
        "enforcement pre-commit"@
    } else if hook == "pre-push"@ {
        "enforcement pre-push"@
    } else {
        "enforcement check"@
    };
    let action = if hook == "pre-commit"@ { "commit"@ } else if hook == "pre-push"@ { "push"@ } else { hook };
    "#!/bin/sh\n# Cell Architecture Enforcement Hook\n# Managed by `cell enforcement install-hooks`\n\necho \"🔍 Cell Enforcement: Running "@
        + hook + " checks...\"\n\n\""@ + bin + "\" "@ + cmd
        + "\n\nif [ $? -ne 0 ]; then\necho \"\"\necho \"❌ "@ + hook
        + " checks FAILED\"\necho \"   Run 'cell enforcement status' for details\"\necho \"   To bypass (not recommended): git "@
        + action + " --no-verify\"\nexit 1\nfi\n\necho \"✅ "@ + hook + " checks PASSED\"\nexit 0\n"@
}

impl Default for EnforcementService {
    fn default() -> (r: Self) {
        EnforcementService
    }
}

} // verus!
