use cell_arch::auto_instrumentation::{AutoInstrumentationService, InstrumentationConfig, InstrumentationKind};

#[test]
fn test_default_config_enables_all() {
    let service = AutoInstrumentationService::new();
    assert!(service.is_enabled(InstrumentationKind::Trace));
    assert!(service.is_enabled(InstrumentationKind::Metrics));
    assert!(service.is_enabled(InstrumentationKind::Logging));
}

#[test]
fn test_disabled_trace() {
    let config = InstrumentationConfig { enable_trace: false, ..Default::default() };
    let service = AutoInstrumentationService::with_config(config);
    assert!(!service.is_enabled(InstrumentationKind::Trace));
    assert!(service.is_enabled(InstrumentationKind::Metrics));
    assert!(service.usecase_trace_snippet("test").is_empty());
}

#[test]
fn test_cargo_dependencies() {
    let service = AutoInstrumentationService::new();
    let deps = service.cargo_dependencies();
    assert!(deps.iter().any(|(name, _)| *name == "tracing"));
    assert!(deps.iter().any(|(name, _)| *name == "metrics"));
}

#[test]
fn usecase_snippet_names_the_usecase() {
    let service = AutoInstrumentationService::new();
    let s = service.usecase_trace_snippet("create_user");
    assert!(s.contains("create_user"));
    assert!(s.contains("info_span!"));
}
