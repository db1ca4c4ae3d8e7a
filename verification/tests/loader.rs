use fmiop_config::bind::bind_configuration;
use fmiop_config::load::{load_config, parse_config, resolve_config_path, ConfigError};
use fmiop_config::render::config_to_yaml;
use fmiop_config::schema::{
    AutoThreshold, Configuration, DynamicSwappiness, PressurePair, Swap, SwappinessRange,
    ThresholdPsi, VirtualMemory, Zram,
};
use fmiop_config::yaml::DecimalLit;

fn full_document() -> String {
    [
        "config_version: 2.05",
        "dynamic_swappiness:",
        "  enable: true",
        "  threshold_type: psi",
        "  swappiness_range: {max: 140, min: 60}",
        "  threshold_psi:",
        "    mode: \"auto\"",
        "    levels: 3",
        "    auto_cpu: {max: 90, min: 10, time_window: \"30s\"}",
        "    auto_memory: {max: 80, min: 20, time_window: 45s}",
        "    auto_io: {max: 70, min: 30, time_window: \"60s\"}",
        "    cpu_pressure: [[10, 20], [30, 40]]",
        "    memory_pressure: [[5, 15]]",
        "    io_pressure: []",
        "  threshold_mem_pressure: [[1, 2], [3, 4], [5, 6]]",
        "virtual_memory:",
        "  enable: true",
        "  pressure_binding: false",
        "  deactivate_in_sleep: true",
        "  wait_timeout: 120",
        "  zram: {activation_threshold: 75, deactivation_threshold: 50}",
        "  swap: {activation_threshold: 90, deactivation_threshold: 60}",
    ]
    .join("\n")
}

fn full_expected() -> Configuration {
    Configuration {
        config_version: DecimalLit { whole: 2, frac: 5, frac_digits: 2 },
        dynamic_swappiness: DynamicSwappiness {
            enable: true,
            threshold_type: "psi".to_string(),
            swappiness_range: SwappinessRange { max: 140, min: 60 },
            threshold_psi: ThresholdPsi {
                mode: "auto".to_string(),
                levels: 3,
                auto_cpu: AutoThreshold { max: 90, min: 10, time_window: "30s".to_string() },
                auto_memory: AutoThreshold { max: 80, min: 20, time_window: "45s".to_string() },
                auto_io: AutoThreshold { max: 70, min: 30, time_window: "60s".to_string() },
                cpu_pressure: vec![
                    PressurePair { pressure: 10, value: 20 },
                    PressurePair { pressure: 30, value: 40 },
                ],
                memory_pressure: vec![PressurePair { pressure: 5, value: 15 }],
                io_pressure: vec![],
            },
            threshold_mem_pressure: vec![
                PressurePair { pressure: 1, value: 2 },
                PressurePair { pressure: 3, value: 4 },
                PressurePair { pressure: 5, value: 6 },
            ],
        },
        virtual_memory: VirtualMemory {
            enable: true,
            pressure_binding: false,
            deactivate_in_sleep: true,
            wait_timeout: 120,
            zram: Zram { activation_threshold: 75, deactivation_threshold: 50 },
            swap: Swap { activation_threshold: 90, deactivation_threshold: 60 },
        },
    }
}

fn minimal_document() -> String {
    [
        "config_version: 1.0",
        "dynamic_swappiness:",
        "  enable: false",
        "  threshold_type: none",
        "  swappiness_range: {max: 0, min: 0}",
        "  threshold_psi:",
        "    mode: manual",
        "    levels: 0",
        "    auto_cpu: {max: 0, min: 0, time_window: \"0s\"}",
        "    auto_memory: {max: 0, min: 0, time_window: \"0s\"}",
        "    auto_io: {max: 0, min: 0, time_window: \"0s\"}",
        "    cpu_pressure: []",
        "    memory_pressure: []",
        "    io_pressure: []",
        "  threshold_mem_pressure: []",
        "virtual_memory:",
        "  enable: false",
        "  pressure_binding: false",
        "  deactivate_in_sleep: false",
        "  wait_timeout: 0",
        "  zram: {activation_threshold: 0, deactivation_threshold: 0}",
        "  swap: {activation_threshold: 0, deactivation_threshold: 0}",
    ]
    .join("\n")
}

#[test]
fn binding_rendered_tree_returns_configuration() {
    let c = full_expected();
    let tree = config_to_yaml(&c);
    let back = bind_configuration(&tree).expect("a rendered tree must bind");
    assert_eq!(back, c);
}

#[test]
fn round_trip_full_document() {
    let doc = full_document();
    let config = parse_config(&doc).expect("well-formed document must load");
    assert_eq!(config, full_expected());
}

#[test]
fn minimal_document_loads() {
    let doc = minimal_document();
    let config = parse_config(&doc).expect("minimal valid document must load");
    assert_eq!(
        config.config_version,
        DecimalLit { whole: 1, frac: 0, frac_digits: 1 }
    );
    assert_eq!(config.dynamic_swappiness.threshold_psi.cpu_pressure, vec![]);
    assert!(!config.dynamic_swappiness.enable);
    assert!(!config.virtual_memory.enable);
    assert_eq!(config.virtual_memory.wait_timeout, 0);
    assert_eq!(
        config.dynamic_swappiness.threshold_psi.auto_io.time_window,
        "0s".to_string()
    );
}

#[test]
fn missing_file_is_read_error() {
    let r = load_config("/no/such/file.yaml", None);
    match r {
        Err(ConfigError::Read { path }) => assert_eq!(path, "/no/such/file.yaml"),
        other => panic!("expected a read error, got {:?}", other),
    }
}

#[test]
fn present_content_never_read_error() {
    let r = load_config("/tmp/whatever.yaml", Some("not: [valid"));
    assert!(matches!(r, Err(ConfigError::Parse { .. })));
}

#[test]
fn invalid_syntax_is_parse_error() {
    let r = parse_config("this is not structured text at all");
    assert!(matches!(r, Err(ConfigError::Parse { .. })));
}

#[test]
fn missing_required_field_is_parse_error() {
    // The minimal document without its `config_version` line.
    let doc = minimal_document();
    let without_version: Vec<&str> = doc.lines().skip(1).collect();
    let r = parse_config(&without_version.join("\n"));
    assert!(matches!(r, Err(ConfigError::Parse { .. })));
}

#[test]
fn missing_nested_field_is_parse_error() {
    let doc = minimal_document().replace("  enable: false\n", "");
    let r = parse_config(&doc);
    assert!(matches!(r, Err(ConfigError::Parse { .. })));
}

#[test]
fn wrong_type_is_parse_error() {
    let doc = minimal_document().replace("wait_timeout: 0", "wait_timeout: soon");
    let r = parse_config(&doc);
    assert!(matches!(r, Err(ConfigError::Parse { .. })));
}

#[test]
fn out_of_range_number_is_parse_error() {
    // 2^32 does not fit the 32-bit schema field.
    let doc = minimal_document().replace("wait_timeout: 0", "wait_timeout: 4294967296");
    let r = parse_config(&doc);
    assert!(matches!(r, Err(ConfigError::Parse { .. })));
}

#[test]
fn unknown_fields_are_ignored() {
    let doc = minimal_document() + "\nextra_section:\n  anything: 7";
    let config = parse_config(&doc).expect("unknown fields must not fail the load");
    assert_eq!(
        config.config_version,
        DecimalLit { whole: 1, frac: 0, frac_digits: 1 }
    );
}

#[test]
fn comments_and_blank_lines_are_ignored() {
    let doc = "# a comment\n\n".to_string() + &minimal_document() + "\n# trailing\n";
    assert!(parse_config(&doc).is_ok());
}

#[test]
fn whole_number_version_loads() {
    let doc = minimal_document().replace("config_version: 1.0", "config_version: 3");
    let config = parse_config(&doc).expect("an integer version must load");
    assert_eq!(
        config.config_version,
        DecimalLit { whole: 3, frac: 0, frac_digits: 0 }
    );
}

#[test]
fn wider_indentation_loads() {
    let doc = minimal_document().replace("  ", "    ");
    assert!(parse_config(&doc).is_ok());
}

#[test]
fn flow_spacing_is_free() {
    let doc = minimal_document().replace(
        "  swappiness_range: {max: 0, min: 0}",
        "  swappiness_range: {  max :  0 ,  min : 0  }",
    );
    let config = parse_config(&doc).expect("extra spaces inside flow values must not matter");
    assert_eq!(config.dynamic_swappiness.swappiness_range.max, 0);
}

#[test]
fn quoted_text_keeps_spaces() {
    let doc = minimal_document().replace("threshold_type: none", "threshold_type: \"a b c\"");
    let config = parse_config(&doc).expect("quoted text must load");
    assert_eq!(config.dynamic_swappiness.threshold_type, "a b c");
}

#[test]
fn largest_version_whole_loads() {
    let doc = minimal_document()
        .replace("config_version: 1.0", "config_version: 18446744073709551615.0");
    let config = parse_config(&doc).expect("a 64-bit version must load");
    assert_eq!(config.config_version.whole, u64::MAX);
}

#[test]
fn oversized_number_is_parse_error() {
    let doc = minimal_document()
        .replace("config_version: 1.0", "config_version: 18446744073709551616");
    assert!(matches!(parse_config(&doc), Err(ConfigError::Parse { .. })));
}

#[test]
fn three_element_pair_is_parse_error() {
    let doc = minimal_document().replace("cpu_pressure: []", "cpu_pressure: [[1, 2, 3]]");
    assert!(matches!(parse_config(&doc), Err(ConfigError::Parse { .. })));
}

#[test]
fn boolean_where_text_expected_is_parse_error() {
    let doc = minimal_document().replace("threshold_type: none", "threshold_type: true");
    assert!(matches!(parse_config(&doc), Err(ConfigError::Parse { .. })));
}

#[test]
fn dangling_config_flag_uses_default() {
    let args = vec!["prog".to_string(), "--config".to_string()];
    let (path, warn) = resolve_config_path(&args);
    assert_eq!(path, "/sdcard/Android/fmiop/config.yaml");
    assert!(warn);
}

#[test]
fn config_flag_overrides_path() {
    let args = vec![
        "prog".to_string(),
        "--config".to_string(),
        "/tmp/custom.yaml".to_string(),
    ];
    let (path, warn) = resolve_config_path(&args);
    assert_eq!(path, "/tmp/custom.yaml");
    assert!(!warn);
}

#[test]
fn no_flag_uses_default() {
    let args = vec!["prog".to_string(), "run".to_string()];
    let (path, warn) = resolve_config_path(&args);
    assert_eq!(path, "/sdcard/Android/fmiop/config.yaml");
    assert!(!warn);
}

#[test]
fn first_flag_occurrence_wins() {
    let args = vec![
        "prog".to_string(),
        "--config".to_string(),
        "/a.yaml".to_string(),
        "--config".to_string(),
        "/b.yaml".to_string(),
    ];
    let (path, warn) = resolve_config_path(&args);
    assert_eq!(path, "/a.yaml");
    assert!(!warn);
}

#[test]
fn read_error_message_names_path() {
    let r = load_config("/gone.yaml", None);
    let e = r.err().expect("missing content must fail");
    assert_eq!(e.message(), "failed to read config file at '/gone.yaml'");
}

#[test]
fn parse_error_names_offending_line() {
    let doc = "config_version: 1.0\n# note\ndynamic_swappiness: [oops\n";
    let e = parse_config(doc).err().expect("malformed document must fail");
    assert!(e.message().contains("line 3"));
}

#[test]
fn parse_error_message_carries_detail() {
    let e = parse_config(":::").err().expect("junk must fail");
    let m = e.message();
    assert!(m.starts_with("failed to parse config: "));
}
