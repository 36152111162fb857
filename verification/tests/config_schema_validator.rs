use cell_arch::cell_spec::CellSpec;
use cell_arch::config_schema_validator::ConfigSchemaValidator;

#[test]
fn test_valid_spec() {
    let spec = CellSpec {
        name: "test".into(),
        description: "desc".into(),
        version: "1.0.0".into(),
        cell_version: None,
        owners: vec!["alice".into()],
        ports: vec![],
        adapters: vec![],
        dependencies: vec![],
        tags: vec![],
    };
    let validator = ConfigSchemaValidator::new();
    let result = validator.validate(&spec);
    assert!(result.valid);
}

#[test]
fn test_missing_required_fields() {
    let spec = CellSpec {
        name: "".into(),
        description: "".into(),
        version: "".into(),
        cell_version: None,
        owners: vec![],
        ports: vec![],
        adapters: vec![],
        dependencies: vec![],
        tags: vec![],
    };
    let validator = ConfigSchemaValidator::new();
    let result = validator.validate(&spec);
    assert!(!result.valid);
    assert!(!result.errors.is_empty());
}

#[test]
fn validate_or_err_refuses_invalid() {
    let spec = CellSpec::default();
    let validator = ConfigSchemaValidator::new();
    assert!(validator.validate_or_err(&spec).is_err());
}
