use cell_arch::generate_service::GenerateService;
use cell_arch::template_engine::TemplateEngine;

fn paths(files: &[cell_arch::template_engine::GeneratedFile]) -> Vec<&str> {
    files.iter().map(|f| f.path.as_str()).collect()
}

#[test]
fn test_generate_from_name() {
    let service = GenerateService::new(TemplateEngine::new());
    let files = service.generate_cell_from_name("test-cell", "name: test-cell\n", "output", false, false).unwrap();
    assert!(files.len() > 1);
    assert!(paths(&files).contains(&"output/test-cell/Cargo.toml"));
    assert!(paths(&files).contains(&"output/test-cell/src/lib.rs"));
}

#[test]
fn test_generate_force_flag() {
    let service = GenerateService::new(TemplateEngine::new());
    service.generate_cell_from_name("test-cell", "", "output", false, false).unwrap();

    let result = service.generate_cell_from_name("test-cell", "", "output", false, true);
    assert!(result.is_err());

    let result2 = service.generate_cell_from_name("test-cell", "", "output", true, true);
    assert!(result2.is_ok());
}

#[test]
fn generating_from_a_name_renders_the_default_spec() {
    let service = GenerateService::new(TemplateEngine::new());
    let from_name = service.generate_cell_from_name("demo", "", "out", false, false).unwrap();
    let spec = cell_arch::cell_spec::CellSpec::named("demo");
    let from_spec = service.generate_cell_from_spec(&spec, "", "out", false, false).unwrap();
    let a: Vec<(&str, &str)> = from_name.iter().map(|f| (f.path.as_str(), f.content.as_str())).collect();
    let b: Vec<(&str, &str)> = from_spec.iter().map(|f| (f.path.as_str(), f.content.as_str())).collect();
    assert_eq!(a, b);
    assert!(a.iter().any(|(p, c)| *p == "out/demo/Cargo.toml" && c.contains("name = \"demo\"")));
}
