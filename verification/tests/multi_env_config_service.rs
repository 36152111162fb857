use cell_arch::multi_env_config_service::{DiffType, Environment, EnvironmentConfig, MultiEnvConfigService};

fn env(name: &str, values: &[(&str, &str)]) -> EnvironmentConfig {
    EnvironmentConfig {
        name: name.to_string(),
        base_path: format!(".cell/env/{}.toml", name),
        config_values: values.iter().map(|(k, v)| (k.to_string(), v.to_string())).collect(),
        created_at: "t0".to_string(),
        last_modified: "t0".to_string(),
    }
}

fn lines(s: &str) -> Vec<String> {
    s.lines().map(|l| l.to_string()).collect()
}

#[test]
fn names_and_labels() {
    assert_eq!(Environment::Prod.name(), "prod");
    assert_eq!(Environment::Staging.label(), "预发布");
    assert_eq!(Environment::Custom("qa".to_string()).name(), "qa");
    assert_eq!(DiffType::Changed.label(), "变更");
}

#[test]
fn new_environment_file() {
    let service = MultiEnvConfigService::new();
    let (content, config) = service.create_environment(&Environment::Prod, "p", "now");
    assert_eq!(
        content,
        "# 生产 环境配置\n# Cell Architecture Multi-Environment Config\n\n[entropy]\nthreshold = 0.3\n\n[architecture]\nstrict = true\n"
    );
    assert_eq!(config.name, "prod");
    assert!(config.config_values.is_empty());
}

#[test]
fn key_lines_go_in_their_section() {
    let service = MultiEnvConfigService::new();
    let file = lines("[entropy]\nthreshold = 0.5\n\n[architecture]\nstrict = false");
    let out = service.insert_config_line(file.clone(), "entropy.max", "9");
    assert_eq!(out, lines("[entropy]\nthreshold = 0.5\nentropy.max = 9\n\n[architecture]\nstrict = false"));
    let out = service.insert_config_line(file.clone(), "architecture.x", "1");
    assert_eq!(out, lines("[entropy]\nthreshold = 0.5\n\n[architecture]\narchitecture.x = 1\nstrict = false"));
    let out = service.insert_config_line(file, "db.url", "u");
    assert_eq!(out.len(), 7);
    assert_eq!(out[5], "[db]");
    assert_eq!(out[6], "db.url = u");
}

#[test]
fn registry_values_and_drift() {
    let service = MultiEnvConfigService::new();
    let mut reg = vec![env("dev", &[("a", "1"), ("b", "2")]), env("prod", &[("a", "1"), ("b", "3"), ("c", "4")])];
    assert_eq!(service.get_config(&reg, "prod", "b").unwrap(), Some("3".to_string()));
    assert!(service.get_environment(&reg, "qa").is_err());
    let drift = service.detect_drift(&reg, "now").unwrap();
    assert_eq!(drift.len(), 1);
    assert_eq!(drift[0].target_env, "prod");
    assert_eq!(drift[0].drift_count, 2);
    let kinds: Vec<DiffType> = drift[0].diffs.iter().map(|d| d.diff_type).collect();
    assert_eq!(kinds, vec![DiffType::Same, DiffType::Changed, DiffType::Added]);
    let out = service
        .set_config(&mut reg, Some(lines("[a]\nx = 1")), "dev", "a", "9", "t1")
        .unwrap();
    assert_eq!(out, lines("[a]\na = 9\nx = 1"));
    assert_eq!(service.get_config(&reg, "dev", "a").unwrap(), Some("9".to_string()));
    assert!(service.set_config(&mut reg, None, "dev", "a", "9", "t1").is_err());
    let synced = service.sync_config(&mut reg, Some(Vec::new()), "prod", "dev", "t2").unwrap();
    assert_eq!(synced.len(), 6);
    assert_eq!(service.get_config(&reg, "dev", "c").unwrap(), Some("4".to_string()));
    assert_eq!(service.list_environments(&reg).unwrap().len(), 2);
}

#[test]
fn set_then_get_reads_back_and_leaves_other_keys() {
    let service = MultiEnvConfigService::new();
    let mut reg = vec![env("dev", &[("a", "1"), ("b", "2")]), env("prod", &[("a", "1")])];
    service.set_config(&mut reg, Some(lines("[a]\na = 1")), "dev", "a", "7", "t1").unwrap();
    assert_eq!(service.get_config(&reg, "dev", "a").unwrap(), Some("7".to_string()));
    assert_eq!(service.get_config(&reg, "dev", "b").unwrap(), Some("2".to_string()));
    assert_eq!(service.get_config(&reg, "prod", "a").unwrap(), Some("1".to_string()));
    service.set_config(&mut reg, Some(lines("")), "dev", "new", "x", "t2").unwrap();
    assert_eq!(service.get_config(&reg, "dev", "new").unwrap(), Some("x".to_string()));
    assert_eq!(service.get_config(&reg, "dev", "a").unwrap(), Some("7".to_string()));
}
