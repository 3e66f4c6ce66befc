use scholarpress::cli::{
    calibrate_exit_code, check_exit_code, options_for, report_source, AnnotateArgError,
    AnnotateArgs, ReportSource,
};
use scholarpress::config::{
    backup_path_at, parse_port, parse_transport, read_server_args, required_setup_arg, Config,
    ConfigError, ServerFlag, SetupArgError, TransportMode,
};
use scholarpress::extract::{heading_level, upload_format, UploadFormat};
use scholarpress::checkers::{CheckResult, EvidenceItem, Status};
use scholarpress::report::{build_report, Summary};
use scholarpress::service::{check_response, port_from, spec_check_counts, template_response};
use scholarpress::template::{load_template, render_template, TemplateError, TemplateFile};
use scholarpress::workspace::{
    newest_first, normalize_components, outcomes_of, within, plan_conversion, profile_id, profile_id_from_text, profile_name_from_text,
    order_by_text, validate_name,
};
use std::path::PathBuf;

#[test]
fn new_stores_values() {
    let cfg = Config::new(PathBuf::from("/c"), PathBuf::from("/w"));
    assert_eq!(cfg.catalog_path, PathBuf::from("/c"));
    assert_eq!(cfg.workspace_root, PathBuf::from("/w"));
}

#[test]
fn transports_by_name() {
    assert_eq!(parse_transport("stdio").unwrap(), TransportMode::Stdio);
    assert_eq!(parse_transport("http").unwrap(), TransportMode::Http);
    match parse_transport("HTTP") {
        Err(ConfigError::Invalid(what)) => assert_eq!(what, "transport"),
        other => panic!("unexpected {:?}", other),
    }
}

#[test]
fn setup_arguments_come_in_flag_value_pairs() {
    let args: Vec<String> = vec!["--config".into(), "/tmp/c.yaml".into(), "--command".into()];
    assert_eq!(required_setup_arg(&args, 0, "--config"), Ok("/tmp/c.yaml".to_string()));
    assert_eq!(
        required_setup_arg(&args, 2, "--command"),
        Err(SetupArgError::MissingValue("--command".to_string()))
    );
    assert_eq!(
        required_setup_arg(&args, 0, "--typst"),
        Err(SetupArgError::WrongFlag { expected: "--typst".to_string(), actual: "--config".to_string() })
    );
    let e = required_setup_arg(&args, 3, "--pandoc").unwrap_err();
    assert_eq!(e.message(), "missing --pandoc for setup-goose");
}

#[test]
fn backup_name_appends_stamp() {
    assert_eq!(backup_path_at("/home/u/.config/goose/config.yaml", 1700000000), "/home/u/.config/goose/config.yaml.bak-1700000000");
}

#[test]
fn workspace_names() {
    assert!(validate_name("thesis").is_ok());
    assert_eq!(validate_name("").unwrap_err(), "");
    assert_eq!(validate_name("../etc").unwrap_err(), "../etc");
    assert!(validate_name("a/b").is_err());
    assert!(validate_name("nul\0").is_err());
}

#[test]
fn profile_ids_and_names_from_spec_text() {
    let text = "# spec\ninstitution: \"Indiana University\"\r\nserver: x\n";
    assert_eq!(profile_id_from_text(text), Some("Indiana University".to_string()));
    assert_eq!(profile_id_from_text("journal:  jmlr \n"), Some("jmlr".to_string()));
    assert_eq!(profile_id_from_text("title: none\n"), None);
    assert_eq!(profile_name_from_text("institution: \"\"\ngrant: NSF\n"), Some("NSF".to_string()));
    assert_eq!(profile_name_from_text("institution:\n"), None);
}

#[test]
fn conversion_targets() {
    assert_eq!(plan_conversion("DOCX", Some("thesis"), "typst"), Ok(("typst".to_string(), "thesis.typst".to_string())));
    assert_eq!(plan_conversion("docx", None, "ast"), Ok(("json".to_string(), "document.json".to_string())));
    assert_eq!(plan_conversion("pdf", Some("a"), "typst"), Err("unsupported extension: .pdf (only .docx supported)".to_string()));
    assert_eq!(plan_conversion("docx", Some("a"), "html"), Err("unsupported format: html (use \"typst\" or \"ast\")".to_string()));
}

#[test]
fn test_render_template_substitutes_variables() {
    let vars = vec![("TITLE".to_string(), "My Dissertation".to_string())];
    let result = render_template("#let title = \"{TITLE}\"", &vars);
    assert_eq!(result, "#let title = \"My Dissertation\"");
}

#[test]
fn render_uppercases_names_and_replaces_every_occurrence() {
    let vars = vec![("author".to_string(), "Ada".to_string()), ("year".to_string(), "2025".to_string())];
    assert_eq!(render_template("{AUTHOR} ({YEAR}) {AUTHOR} {author}", &vars), "Ada (2025) Ada {author}");
}

#[test]
fn template_entry_choice() {
    assert_eq!(load_template(vec![]).err(), Some(TemplateError::NoTypFiles));
    let files = vec![
        TemplateFile { path: "sections/a.typ".to_string(), content: "a".to_string() },
        TemplateFile { path: "template.typ".to_string(), content: "t".to_string() },
    ];
    let set = load_template(files).unwrap();
    assert_eq!(set.entry, "template.typ");
    let set = load_template(vec![TemplateFile { path: "main.typ".to_string(), content: String::new() }]).unwrap();
    assert_eq!(set.entry, "main.typ");
    let response = template_response("iu", set);
    assert_eq!(response.id, "iu");
    assert_eq!(response.files[0].path, "main.typ");
}

#[test]
fn ports_and_responses() {
    assert_eq!(port_from(Some("8080")), 8080);
    assert_eq!(port_from(Some("70000")), 4000);
    assert_eq!(port_from(Some("x")), 4000);
    assert_eq!(port_from(None), 4000);
    let report = build_report(vec![CheckResult {
        check_id: "a".to_string(),
        status: Status::Fail,
        evidence: vec![EvidenceItem { page: 7, bbox: None, excerpt: Some("x".to_string()) }],
        detail: "d".to_string(),
    }]);
    let r = check_response(&report);
    assert_eq!(r.violations[0].status, "Fail");
    assert_eq!(r.violations[0].page, Some(7));
    assert_eq!(r.fail_count, 1);
    let o = outcomes_of(&report.results);
    assert_eq!(o[0].status, "FAIL");
    assert_eq!(o[0].page, Some(7));
    assert_eq!(o[0].evidence[0].excerpt.as_deref(), Some("x"));
}

#[test]
fn command_line_decisions() {
    let o = options_for(Some("margins".to_string()), None);
    assert_eq!(o.check_ids, Some(vec!["margins".to_string()]));
    assert_eq!(check_exit_code(&Summary { pass: 3, fail: 0, manual: 1, error: 0 }), 0);
    assert_eq!(check_exit_code(&Summary { pass: 3, fail: 0, manual: 1, error: 1 }), 1);
    assert_eq!(calibrate_exit_code(2), 1);
    let args = AnnotateArgs {
        pdf: PathBuf::from("a.pdf"),
        out: None,
        report: Some(PathBuf::from("r.json")),
        spec: None,
        check: None,
        category: None,
    };
    assert_eq!(report_source(&args), Ok(ReportSource::SavedReport));
    let both = AnnotateArgs { spec: Some(PathBuf::from("s.yaml")), ..args };
    assert_eq!(report_source(&both), Err(AnnotateArgError::BothSources));
}

#[test]
fn heading_levels_and_formats() {
    assert_eq!(heading_level("1.2.3 Scope", false, false), 3);
    assert_eq!(heading_level("1.2 Scope", false, true), 2);
    assert_eq!(heading_level("CHAPTER 4 Results", false, false), 1);
    assert_eq!(heading_level("Results", true, false), 1);
    assert_eq!(heading_level("Results", false, true), 1);
    assert_eq!(heading_level("Results", false, false), 2);
    assert_eq!(upload_format(Some("application/pdf")), Some(UploadFormat::Pdf));
    assert_eq!(
        upload_format(Some("application/vnd.openxmlformats-officedocument.wordprocessingml.document")),
        Some(UploadFormat::Docx)
    );
    assert_eq!(upload_format(None), None);
}

fn strings(v: &[&str]) -> Vec<String> {
    v.iter().map(|s| s.to_string()).collect()
}

#[test]
fn server_args_read_in_order() {
    let (settings, problem) = read_server_args(&strings(&["--transport", "http", "--port=9000", "--bind", "0.0.0.0"]));
    assert!(problem.is_none());
    assert_eq!(
        settings,
        vec![
            (ServerFlag::Transport, "http".to_string()),
            (ServerFlag::Port, "9000".to_string()),
            (ServerFlag::Bind, "0.0.0.0".to_string()),
        ]
    );
}

#[test]
fn server_args_empty_value_takes_next_argument() {
    let (settings, problem) = read_server_args(&strings(&["--port=", "8080"]));
    assert!(problem.is_none());
    assert_eq!(settings, vec![(ServerFlag::Port, "8080".to_string())]);
}

#[test]
fn server_args_stop_at_unknown_option() {
    let (settings, problem) = read_server_args(&strings(&["--port", "1", "--verbose", "--bind", "x"]));
    assert_eq!(settings, vec![(ServerFlag::Port, "1".to_string())]);
    assert!(matches!(problem, Some(ConfigError::UnknownArgument(ref k)) if k == "--verbose"));
}

#[test]
fn server_args_unknown_key_is_the_part_before_equals() {
    let (settings, problem) = read_server_args(&strings(&["--mode=fast"]));
    assert!(settings.is_empty());
    assert!(matches!(problem, Some(ConfigError::UnknownArgument(ref k)) if k == "--mode"));
}

#[test]
fn server_args_missing_value() {
    let (settings, problem) = read_server_args(&strings(&["--transport", "stdio", "--bind"]));
    assert_eq!(settings, vec![(ServerFlag::Transport, "stdio".to_string())]);
    assert!(matches!(problem, Some(ConfigError::MissingArgument("--bind"))));
}

#[test]
fn port_parsing() {
    assert!(matches!(parse_port("8765", "--port"), Ok(8765)));
    assert!(matches!(parse_port("+80", "--port"), Ok(80)));
    assert!(matches!(parse_port("65535", "--port"), Ok(65535)));
    assert!(matches!(parse_port("65536", "--port"), Err(ConfigError::Invalid("--port"))));
    assert!(matches!(parse_port("", "SCHOLARPRESS_PORT"), Err(ConfigError::Invalid("SCHOLARPRESS_PORT"))));
    assert!(matches!(parse_port("-1", "--port"), Err(ConfigError::Invalid("--port"))));
}

#[test]
fn spec_counts_split_automated_and_human() {
    assert_eq!(spec_check_counts(&[Some(true), None, Some(false), Some(false)]), (2, 2));
    assert_eq!(spec_check_counts(&[]), (0, 0));
    assert_eq!(spec_check_counts(&[None]), (1, 0));
}

#[test]
fn workspaces_listed_newest_first() {
    assert_eq!(newest_first(&[10, 30, 20]), vec![1, 2, 0]);
    assert_eq!(newest_first(&[]), Vec::<usize>::new());
}

#[test]
fn equal_times_keep_their_order() {
    assert_eq!(newest_first(&[5, 7, 5, 7, -3]), vec![1, 3, 0, 2, 4]);
}

#[test]
fn profiles_listed_by_id() {
    let ids = strings(&["iu/music", "iu/law", "apa/default", "iu/law-school", "iu"]);
    assert_eq!(order_by_text(&ids), vec![2, 4, 1, 3, 0]);
}

#[test]
fn order_by_text_is_byte_order_and_stable() {
    let ids = strings(&["b", "B", "a", "b", "é", "z"]);
    assert_eq!(order_by_text(&ids), vec![1, 2, 0, 3, 5, 4]);
    let mut sorted = ids.clone();
    sorted.sort();
    let listed: Vec<String> = order_by_text(&ids).into_iter().map(|i| ids[i].clone()).collect();
    assert_eq!(listed, sorted);
}

#[test]
fn profile_id_joins_scope_and_name() {
    assert_eq!(profile_id("iu", "music"), "iu/music");
    assert_eq!(profile_id("", "x"), "/x");
}

#[test]
fn paths_within_a_root() {
    let root = strings(&["/", "home", "ws"]);
    assert!(within(&root, &strings(&["/", "home", "ws"])));
    assert!(within(&root, &strings(&["/", "home", "ws", "job", "entry.typ"])));
    assert!(!within(&root, &strings(&["/", "home", "other"])));
    assert!(!within(&root, &strings(&["/", "home"])));
    assert!(!within(&root, &strings(&["/", "home", "wsx"])));
}

#[test]
fn dot_dot_leaves_the_output_directory() {
    let out = strings(&["/", "ws", "job", "out"]);
    let escaped = normalize_components(&strings(&["/", "ws", "job", "out", "..", "outside"]));
    assert_eq!(escaped, strings(&["/", "ws", "job", "outside"]));
    assert!(!within(&out, &escaped));
    let fine = normalize_components(&strings(&["/", "ws", "job", "out", ".", "entry.pdf"]));
    assert!(within(&out, &fine));
    assert_eq!(normalize_components(&strings(&["/", "..", "x"])), strings(&["/", "x"]));
}

#[test]
fn margin_checks_skip_front_matter() {
    let pages = vec![
        (1, "Title".to_string()),
        (2, "ACCEPTED BY the faculty".to_string()),
        (3, "\u{a9} 2025 Jane Doe".to_string()),
        (4, "Chapter 1 Introduction".to_string()),
        (5, "Table of Contents".to_string()),
    ];
    let mut excluded = scholarpress::layout::margin_excluded_pages(&pages);
    excluded.sort();
    excluded.dedup();
    assert_eq!(excluded, vec![1, 2, 3, 5]);
}
