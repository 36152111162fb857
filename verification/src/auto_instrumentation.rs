//! Tracing/metrics/logging snippets injected into generated code.
use vstd::prelude::*;
use crate::text::{owned, push_str};

verus! {

/// Which kinds of instrumentation are switched on.
#[derive(Debug, Clone, Copy, PartialEq, Eq, Structural)]
pub struct InstrumentationConfig {
    pub enable_trace: bool,
    pub enable_metrics: bool,
    pub enable_logging: bool,
}

impl Default for InstrumentationConfig {
    /// Everything switched on.
    fn default() -> (r: Self)
        ensures
            r.enable_trace && r.enable_metrics && r.enable_logging,
    {
        InstrumentationConfig { enable_trace: true, enable_metrics: true, enable_logging: true }
    }
}

/// A kind of instrumentation.
#[derive(Debug, Clone, Copy, PartialEq, Eq, Structural)]
pub enum InstrumentationKind {
    Trace,
    Metrics,
    Logging,
}

/// Generates instrumentation snippets according to its configuration.
pub struct AutoInstrumentationService {
    config: InstrumentationConfig,
}

/// A trace-span snippet for the given span kind, field and value.
pub open spec fn span_snippet(comment: Seq<char>, span: Seq<char>, field: Seq<char>, value: Seq<char>) -> Seq<char> {
    "    // Auto-instrumented: "@ + comment + "\n    let _span = tracing::info_span!(\""@ + span + "\", "@ + field
        + " = %\""@ + value + "\").entered();\n"@
}

fn span_exec(comment: &str, span: &str, field: &str, value: &str) -> (r: String)
    ensures
        r@ == span_snippet(comment@, span@, field@, value@),
{
    let mut r = owned("    // Auto-instrumented: ");
    push_str(&mut r, comment);
    push_str(&mut r, "\n    let _span = tracing::info_span!(\"");
    push_str(&mut r, span);
    push_str(&mut r, "\", ");
    push_str(&mut r, field);
    push_str(&mut r, " = %\"");
    push_str(&mut r, value);
    push_str(&mut r, "\").entered();\n");
    r
}

impl AutoInstrumentationService {
    /// The configuration in force.
    pub closed spec fn config_view(&self) -> InstrumentationConfig {
        self.config
    }

    /// A service with everything switched on.
    pub fn new() -> (r: Self)
        ensures
            r.config_view() == (InstrumentationConfig { enable_trace: true, enable_metrics: true, enable_logging: true }),
    {
        AutoInstrumentationService { config: InstrumentationConfig::default() }
    }

    /// A service with the given configuration.
    pub fn with_config(config: InstrumentationConfig) -> (r: Self)
        ensures
            r.config_view() == config,
    {
        AutoInstrumentationService { config }
    }

    /// The trace span for a use case, or nothing when tracing is off.
    pub fn usecase_trace_snippet(&self, usecase_name: &str) -> (r: String)
        ensures
            r@ == if self.config_view().enable_trace {
                span_snippet("Trace span"@, "usecase"@, "usecase"@, usecase_name@)
            } else {
                Seq::empty()
            },
    {
        if !self.config.enable_trace {
            return String::new();
        }
        span_exec("Trace span", "usecase", "usecase", usecase_name)
    }

    /// The first instrumentation comment line for a repository, or `""`.
    pub fn repository_snippet(&self, _repo_name: &str) -> (r: &'static str)
        ensures
            r@ == if self.config_view().enable_trace {
                "    // Auto-instrumented: Repository trace"@
            } else if self.config_view().enable_metrics {
                "    // Auto-instrumented: Repository metrics"@
            } else if self.config_view().enable_logging {
                "    // Auto-instrumented: Repository logging"@
            } else {
                ""@
            },
    {
        if self.config.enable_trace {
            "    // Auto-instrumented: Repository trace"
        } else if self.config.enable_metrics {
            "    // Auto-instrumented: Repository metrics"
        } else if self.config.enable_logging {
            "    // Auto-instrumented: Repository logging"
        } else {
            ""
        }
    }

    /// The trace span for an HTTP handler, or nothing when tracing is off.
    pub fn http_handler_snippet(&self, handler_name: &str) -> (r: String)
        ensures
            r@ == if self.config_view().enable_trace {
                span_snippet("HTTP handler trace span"@, "http_handler"@, "handler"@, handler_name@)
            } else {
                Seq::empty()
            },
    {
        if !self.config.enable_trace {
            return String::new();
        }
        span_exec("HTTP handler trace span", "http_handler", "handler", handler_name)
    }

    /// The trace span for publishing to or consuming from a topic, or nothing when tracing is off.
    pub fn messaging_snippet(&self, topic: &str) -> (r: String)
        ensures
            r@ == if self.config_view().enable_trace {
                span_snippet("Messaging trace"@, "messaging"@, "topic"@, topic@)
            } else {
                Seq::empty()
            },
    {
        if !self.config.enable_trace {
            return String::new();
        }
        span_exec("Messaging trace", "messaging", "topic", topic)
    }

    /// Whether the given kind of instrumentation is switched on.
    pub fn is_enabled(&self, kind: InstrumentationKind) -> (r: bool)
        ensures
            r == match kind {
                InstrumentationKind::Trace => self.config_view().enable_trace,
                InstrumentationKind::Metrics => self.config_view().enable_metrics,
                InstrumentationKind::Logging => self.config_view().enable_logging,
            },
    {
        match kind {
            InstrumentationKind::Trace => self.config.enable_trace,
            InstrumentationKind::Metrics => self.config.enable_metrics,
            InstrumentationKind::Logging => self.config.enable_logging,
        }
    }

    /// The crates (name, version) the switched-on instrumentation needs.
    pub fn cargo_dependencies(&self) -> (r: Vec<(&'static str, &'static str)>)
        ensures
            r@.map_values(|p: (&'static str, &'static str)| (p.0@, p.1@)) ==
                (if self.config_view().enable_trace {
                    seq![("tracing"@, "0.1"@), ("tracing-subscriber"@, "0.3"@)]
                } else {
                    Seq::empty()
                }) + (if self.config_view().enable_metrics {
                    seq![("metrics"@, "0.21"@), ("metrics-exporter-prometheus"@, "0.13"@)]
                } else {
                    Seq::empty()
                }),
    {
        let mut deps: Vec<(&'static str, &'static str)> = Vec::new();
        if self.config.enable_trace {
            deps.push(("tracing", "0.1"));
            deps.push(("tracing-subscriber", "0.3"));
        }
        if self.config.enable_metrics {
            deps.push(("metrics", "0.21"));
            deps.push(("metrics-exporter-prometheus", "0.13"));
        }
        assert(deps@.map_values(|p: (&'static str, &'static str)| (p.0@, p.1@)) =~=
            (if self.config.enable_trace {
                seq![("tracing"@, "0.1"@), ("tracing-subscriber"@, "0.3"@)]
            } else {
                Seq::empty()
            }) + (if self.config.enable_metrics {
                seq![("metrics"@, "0.21"@), ("metrics-exporter-prometheus"@, "0.13"@)]
            } else {
                Seq::empty()
            }));
        deps
    }
}

impl Default for AutoInstrumentationService {
    fn default() -> (r: Self)
        ensures
            r.config_view() == (InstrumentationConfig { enable_trace: true, enable_metrics: true, enable_logging: true }),
    {
        Self::new()
    }
}

} // verus!
