use cell_arch::config_service::{
    is_semver_like, validate_config, ArchitectureConfig, ComplexityThresholdsConfig, ConfigService, JsonValue,
    ProjectConfig,
};

fn s(t: &str) -> JsonValue {
    JsonValue::Str(t.to_string())
}

fn obj(entries: Vec<(&str, JsonValue)>) -> JsonValue {
    JsonValue::Object(entries.into_iter().map(|(k, v)| (k.to_string(), v)).collect())
}

fn document() -> JsonValue {
    obj(vec![
        ("project", obj(vec![("name", s("demo")), ("version", s("0.1.0"))])),
        (
            "architecture",
            obj(vec![
                ("layers", JsonValue::Array(vec![s("domain"), s("application")])),
                ("strict_mode", JsonValue::Bool(false)),
            ]),
        ),
        (
            "entropy",
            obj(vec![
                ("warning_threshold", JsonValue::Number("0.7".to_string())),
                ("complexity", obj(vec![("max_nesting_depth", JsonValue::Number("5".to_string()))])),
            ]),
        ),
        ("custom", obj(vec![("team", s("core"))])),
    ])
}

#[test]
fn defaults() {
    let p = ProjectConfig::default();
    assert_eq!((p.name.as_str(), p.version.as_str(), p.language.as_str()), ("cell-project", "0.1.0", "rust"));
    let a = ArchitectureConfig::default();
    assert_eq!(a.layers, vec!["domain", "application", "adapters", "interfaces"]);
    assert!(!a.strict_mode);
    let c = ComplexityThresholdsConfig::default();
    assert_eq!((c.max_function_lines, c.max_file_lines, c.max_nesting_depth, c.max_cyclomatic_complexity), (50, 500, 5, 10));
}

#[test]
fn semver_versions() {
    assert!(is_semver_like("0.1.0"));
    assert!(is_semver_like("1.2"));
    assert!(!is_semver_like("1"));
    assert!(!is_semver_like("1.0-beta"));
    assert!(is_semver_like("1..2"));
}

#[test]
fn validation_messages() {
    let mut p = ProjectConfig::default();
    p.name = String::new();
    p.version = "v1".to_string();
    let mut a = ArchitectureConfig::default();
    a.layers.clear();
    let r = validate_config(&p, &a, 0, 50, true, true, false, true);
    assert!(!r.valid);
    assert_eq!(
        r.errors,
        vec![
            "project.name 不能为空",
            "entropy.warning_threshold 必须小于 entropy.critical_threshold",
            "quality.max_file_lines 不能为 0",
        ]
    );
    assert_eq!(
        r.warnings,
        vec!["project.version 建议使用语义化版本格式 (如 0.1.0)", "architecture.layers 为空，分层检查将被跳过"]
    );
    let ok = validate_config(&ProjectConfig::default(), &ArchitectureConfig::default(), 500, 50, true, true, true, true);
    assert!(ok.valid);
    assert!(ok.errors.is_empty() && ok.warnings.is_empty());
}

#[test]
fn config_path_in_root() {
    assert_eq!(ConfigService::new("/proj").config_path(), "/proj/cell.toml");
    assert_eq!(ConfigService::new("/proj/").config_path(), "/proj/cell.toml");
    assert_eq!(ConfigService::new("").config_path(), "cell.toml");
}

#[test]
fn reading_settings() {
    let c = ConfigService::new(".");
    let d = document();
    assert_eq!(c.get(&d, "project.name"), Some("demo".to_string()));
    assert_eq!(c.get(&d, "architecture.layers"), Some("[domain, application]".to_string()));
    assert_eq!(c.get(&d, "architecture.strict_mode"), Some("false".to_string()));
    assert_eq!(c.get(&d, "entropy.warning_threshold"), Some("0.7".to_string()));
    assert_eq!(c.get(&d, "entropy.complexity.max_nesting_depth"), Some("5".to_string()));
    assert_eq!(c.get(&d, "entropy.complexity"), None);
    assert_eq!(c.get(&d, "custom.team"), Some("core".to_string()));
    assert_eq!(c.get(&d, "custom.other"), None);
    assert_eq!(c.get(&d, "project"), None);
    assert_eq!(c.get(&d, "unknown.name"), None);
}

#[test]
fn writing_settings() {
    let c = ConfigService::new(".");
    let d = c.set(document(), "project.name", "renamed").unwrap();
    assert_eq!(c.get(&d, "project.name"), Some("renamed".to_string()));
    let d = c.set(d, "custom.owner", "me").unwrap();
    assert_eq!(c.get(&d, "custom.owner"), Some("me".to_string()));
    assert!(c.set(document(), "project", "x").is_err());
    assert!(c.set(document(), "nothing.here", "x").is_err());
}

#[test]
fn setting_one_key_keeps_the_others() {
    let c = ConfigService::new(".");
    let d = c.set(document(), "project.name", "renamed").unwrap();
    for key in [
        "project.version",
        "architecture.layers",
        "architecture.strict_mode",
        "entropy.warning_threshold",
        "entropy.complexity.max_nesting_depth",
        "custom.team",
    ] {
        assert_eq!(c.get(&d, key), c.get(&document(), key), "{key}");
    }
}

#[test]
fn setting_refuses_what_the_configuration_cannot_hold() {
    let c = ConfigService::new(".");
    assert_eq!(
        c.set(document(), "nosuch.x", "v"),
        Err(cell_arch::errors::CellError::Config("Unknown section: nosuch".to_string()))
    );
    assert_eq!(
        c.set(document(), "architecture.strict_mode", "yes"),
        Err(cell_arch::errors::CellError::Config(
            "Invalid value: architecture.strict_mode is not a text setting".to_string()
        ))
    );
    assert_eq!(
        c.set(document(), "project", "x"),
        Err(cell_arch::errors::CellError::Config("Invalid key format. Use: section.key".to_string()))
    );
    let same = c.set(document(), "project.unknown_field", "x").unwrap();
    assert_eq!(same, document());
}

#[test]
fn setting_creates_a_missing_section() {
    let c = ConfigService::new(".");
    let d = c.set(JsonValue::Object(Vec::new()), "custom.owner", "me").unwrap();
    assert_eq!(c.get(&d, "custom.owner"), Some("me".to_string()));
    let d = c.set(d, "project.language", "rust").unwrap();
    assert_eq!(c.get(&d, "project.language"), Some("rust".to_string()));
    assert_eq!(c.get(&d, "custom.owner"), Some("me".to_string()));
}
