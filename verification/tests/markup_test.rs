use scholarpress::config::{goose_config_text, GooseConfigError, GoosePaths};
use scholarpress::markup::parse_yaml;
use scholarpress::service::institution_name;
use scholarpress::workspace::{interface_text, InterfaceDocError};

fn paths() -> GoosePaths {
    GoosePaths {
        command: "/bin/sp-mcp".to_string(),
        catalog_path: "/cat".to_string(),
        workspace_root: "/ws".to_string(),
        typst_path: "/bin/typst".to_string(),
        pandoc_path: "/bin/pandoc".to_string(),
    }
}

#[test]
fn reference_is_pretty_printed() {
    let text = interface_text("{\"a\":[1,2]}").unwrap();
    assert_eq!(text, "{\n  \"a\": [\n    1,\n    2\n  ]\n}");
}

#[test]
fn invalid_reference_is_reported() {
    assert!(matches!(interface_text("{not json"), Err(InterfaceDocError::InvalidJson(_))));
}

#[test]
fn blank_goose_config_gets_the_extension() {
    let text = goose_config_text("  \n", &paths()).unwrap();
    let v: serde_yaml::Value = serde_yaml::from_str(&text).unwrap();
    let ext = &v["extensions"]["scholarpress"];
    assert_eq!(ext["name"].as_str(), Some("ScholarPress"));
    assert_eq!(ext["cmd"].as_str(), Some("/bin/sp-mcp"));
    assert_eq!(ext["enabled"].as_bool(), Some(true));
    assert_eq!(ext["type"].as_str(), Some("stdio"));
    assert_eq!(ext["timeout"].as_u64(), Some(300));
    assert_eq!(ext["args"].as_sequence().map(|s| s.len()), Some(0));
    assert_eq!(ext["envs"]["SCHOLARPRESS_PANDOC_PATH"].as_str(), Some("/bin/pandoc"));
    assert_eq!(ext["envs"]["SCHOLARPRESS_WORKSPACE_ROOT"].as_str(), Some("/ws"));
}

#[test]
fn other_extensions_are_kept() {
    let text = goose_config_text("model: x\nextensions:\n  other:\n    cmd: y\n", &paths()).unwrap();
    let v: serde_yaml::Value = serde_yaml::from_str(&text).unwrap();
    assert_eq!(v["model"].as_str(), Some("x"));
    assert_eq!(v["extensions"]["other"]["cmd"].as_str(), Some("y"));
    assert_eq!(v["extensions"]["scholarpress"]["envs"]["SCHOLARPRESS_CATALOG_PATH"].as_str(), Some("/cat"));
}

#[test]
fn invalid_goose_yaml_is_rejected() {
    assert!(matches!(goose_config_text("a: [1, 2", &paths()), Err(GooseConfigError::Yaml(_))));
}

#[test]
fn non_mapping_top_level_is_rejected() {
    assert_eq!(goose_config_text("- a\n- b\n", &paths()), Err(GooseConfigError::TopLevel));
}

#[test]
fn non_mapping_extensions_is_rejected() {
    assert_eq!(goose_config_text("extensions: 3\n", &paths()), Err(GooseConfigError::Extensions));
}

#[test]
fn institution_name_from_spec_or_directory() {
    let spec = parse_yaml("institution: Indiana University\nchecks: []\n").unwrap();
    assert_eq!(institution_name(&spec, "iu"), "Indiana University");
    let unnamed = parse_yaml("checks: []\n").unwrap();
    assert_eq!(institution_name(&unnamed, "iu"), "iu");
    let numbered = parse_yaml("institution: 42\n").unwrap();
    assert_eq!(institution_name(&numbered, "iu"), "iu");
    assert!(parse_yaml("a: [").is_err());
}
