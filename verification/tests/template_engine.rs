use cell_arch::cell_spec::{AdapterKind, AdapterSpec, CellSpec, PortKind, PortSpec};
use cell_arch::template_engine::{to_pascal_case, to_snake_case, CodeGeneratorPort, TemplateEngine};

fn sample_spec() -> CellSpec {
    CellSpec {
        name: "user-cell".to_string(),
        description: "User management cell".to_string(),
        version: "0.1.0".to_string(),
        ports: vec![PortSpec {
            name: "CreateUser".to_string(),
            kind: PortKind::UseCase,
            description: "Create a new user".to_string(),
            input: Some("CreateUserInput".to_string()),
            output: Some("User".to_string()),
            is_async: true,
        }],
        adapters: vec![AdapterSpec {
            name: "InMemoryUserRepo".to_string(),
            kind: AdapterKind::InMemory,
            port: "UserRepository".to_string(),
            description: "In memory user repository".to_string(),
        }],
        dependencies: vec![],
        tags: vec![],
        ..Default::default()
    }
}

const SPEC_YAML: &str = "name: user-cell\n";

#[test]
fn test_render_creates_files() {
    let engine = TemplateEngine::new();
    let spec = sample_spec();
    let files = engine.render_cell_structure(&spec, SPEC_YAML);
    assert!(files.len() > 5);
}

#[test]
fn test_cargo_toml_contains_name() {
    let engine = TemplateEngine::new();
    let spec = sample_spec();
    let files = engine.render_cell_structure(&spec, SPEC_YAML);
    let cargo = files.iter().find(|f| f.path.ends_with("Cargo.toml")).unwrap();
    assert!(cargo.content.contains("user-cell"));
}

#[test]
fn test_port_generated() {
    let engine = TemplateEngine::new();
    let spec = sample_spec();
    let files = engine.render_cell_structure(&spec, SPEC_YAML);
    let port_file = files.iter().find(|f| f.path.contains("ports/"));
    assert!(port_file.is_some());
    assert!(port_file.unwrap().content.contains("trait"));
}

#[test]
fn test_to_snake_case() {
    assert_eq!(to_snake_case("CreateUser"), "create_user");
    assert_eq!(to_snake_case("user"), "user");
}

#[test]
fn test_to_pascal_case() {
    assert_eq!(to_pascal_case("create_user"), "CreateUser");
    assert_eq!(to_pascal_case("User"), "User");
}

#[test]
fn test_implements_code_generator_port() {
    let engine = TemplateEngine::new();
    let _: &dyn CodeGeneratorPort = &engine;
}

#[test]
fn spec_file_holds_serialized_form() {
    let engine = TemplateEngine::new();
    let files = engine.render_cell_structure(&sample_spec(), SPEC_YAML);
    let spec_file = files.iter().find(|f| f.path.ends_with("/spec.yaml")).unwrap();
    assert_eq!(spec_file.content, SPEC_YAML);
}

#[test]
fn snake_case_edges() {
    assert_eq!(to_snake_case(""), "");
    assert_eq!(to_snake_case("HTTPServer"), "h_t_t_p_server");
    assert_eq!(to_pascal_case("a__b"), "AB");
}
