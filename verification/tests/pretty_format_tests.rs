use premortem::error::{ConfigError, ConfigErrors, SourceErrorKind, SourceLocation};
use premortem::pretty::{ColorOption, PrettyPrintOptions};

fn create_test_errors() -> ConfigErrors {
    ConfigErrors::from_vec(vec![
        ConfigError::MissingField {
            path: "database.host".to_string(),
            source_location: None,
            searched_sources: vec!["config.toml".to_string(), "env".to_string()],
        },
        ConfigError::ParseError {
            path: "database.port".to_string(),
            source_location: SourceLocation::new("config.toml").with_line(5),
            expected_type: "integer".to_string(),
            actual_value: "abc".to_string(),
            message: "invalid digit".to_string(),
        },
        ConfigError::ValidationError {
            path: "server.timeout".to_string(),
            source_location: Some(SourceLocation::new("config.toml")),
            value: Some("0".to_string()),
            message: "must be positive".to_string(),
        },
    ])
    .unwrap()
}

#[test]
fn test_format_errors_contains_header() {
    let errors = create_test_errors();
    let output = errors.format(&PrettyPrintOptions::no_color());

    assert!(output.contains("Configuration errors (3):"));
}

#[test]
fn test_format_errors_contains_all_errors() {
    let errors = create_test_errors();
    let output = errors.format(&PrettyPrintOptions::no_color());

    assert!(output.contains("database.host"));
    assert!(output.contains("database.port"));
    assert!(output.contains("server.timeout"));
}

#[test]
fn test_format_missing_field() {
    let errors = ConfigErrors::single(ConfigError::MissingField {
        path: "host".to_string(),
        source_location: None,
        searched_sources: vec!["config.toml".to_string()],
    });
    let output = errors.format(&PrettyPrintOptions::no_color());

    assert!(output.contains("missing required field 'host'"));
}

#[test]
fn test_format_parse_error() {
    let errors = ConfigErrors::single(ConfigError::ParseError {
        path: "port".to_string(),
        source_location: SourceLocation::new("config.toml"),
        expected_type: "integer".to_string(),
        actual_value: "abc".to_string(),
        message: "invalid digit".to_string(),
    });
    let output = errors.format(&PrettyPrintOptions::no_color());

    assert!(output.contains("'port': expected integer, got \"abc\": invalid digit"));
}

#[test]
fn test_format_validation_error() {
    let errors = ConfigErrors::single(ConfigError::ValidationError {
        path: "timeout".to_string(),
        source_location: None,
        value: Some("0".to_string()),
        message: "must be positive".to_string(),
    });
    let output = errors.format(&PrettyPrintOptions::no_color());

    assert!(output.contains("'timeout' = 0: must be positive"));
}

#[test]
fn test_format_cross_field_error() {
    let errors = ConfigErrors::single(ConfigError::CrossFieldError {
        paths: vec!["start_date".to_string(), "end_date".to_string()],
        message: "start_date must be before end_date".to_string(),
    });
    let output = errors.format(&PrettyPrintOptions::no_color());

    assert!(output.contains("[start_date, end_date]"));
    assert!(output.contains("start_date must be before end_date"));
}

#[test]
fn test_format_unknown_field_with_suggestion() {
    let errors = ConfigErrors::single(ConfigError::UnknownField {
        path: "hoost".to_string(),
        source_location: SourceLocation::new("config.toml"),
        did_you_mean: Some("host".to_string()),
    });
    let output = errors.format(&PrettyPrintOptions::no_color());

    assert!(output.contains("unknown field 'hoost'"));
    assert!(output.contains("did you mean 'host'?"));
}

#[test]
fn test_format_source_error() {
    let errors = ConfigErrors::single(ConfigError::SourceError {
        source_name: "config.toml".to_string(),
        kind: SourceErrorKind::NotFound {
            path: "/etc/config.toml".to_string(),
        },
    });
    let output = errors.format(&PrettyPrintOptions::no_color());

    assert!(output.contains("config.toml: file not found"));
}

#[test]
fn test_format_no_sources() {
    let errors = ConfigErrors::single(ConfigError::NoSources);
    let output = errors.format(&PrettyPrintOptions::no_color());

    assert!(output.contains("no configuration sources provided"));
}

#[test]
fn test_redaction_of_sensitive_values() {
    let errors = ConfigErrors::single(ConfigError::ValidationError {
        path: "database.password".to_string(),
        source_location: None,
        value: Some("super_secret_123".to_string()),
        message: "invalid format".to_string(),
    });
    let output = errors.format(&PrettyPrintOptions::default());

    assert!(output.contains("[REDACTED]"));
    assert!(!output.contains("super_secret_123"));
}

#[test]
fn test_no_redaction_when_disabled() {
    let errors = ConfigErrors::single(ConfigError::ValidationError {
        path: "database.password".to_string(),
        source_location: None,
        value: Some("super_secret_123".to_string()),
        message: "invalid format".to_string(),
    });
    let options = PrettyPrintOptions::no_color().with_redaction(false);
    let output = errors.format(&options);

    assert!(!output.contains("[REDACTED]"));
    assert!(output.contains("super_secret_123"));
}

#[test]
fn test_truncation_with_max_errors() {
    let errors = ConfigErrors::from_vec(vec![
        ConfigError::MissingField {
            path: "field1".to_string(),
            source_location: None,
            searched_sources: vec![],
        },
        ConfigError::MissingField {
            path: "field2".to_string(),
            source_location: None,
            searched_sources: vec![],
        },
        ConfigError::MissingField {
            path: "field3".to_string(),
            source_location: None,
            searched_sources: vec![],
        },
        ConfigError::MissingField {
            path: "field4".to_string(),
            source_location: None,
            searched_sources: vec![],
        },
        ConfigError::MissingField {
            path: "field5".to_string(),
            source_location: None,
            searched_sources: vec![],
        },
    ])
    .unwrap();

    let options = PrettyPrintOptions::no_color().with_max_errors(Some(3));
    let output = errors.format(&options);

    assert!(output.contains("field1"));
    assert!(output.contains("field2"));
    assert!(output.contains("field3"));
    assert!(!output.contains("field4"));
    assert!(!output.contains("field5"));
    assert!(output.contains("...and 2 more errors"));
}

#[test]
fn test_no_truncation_when_disabled() {
    let errors = ConfigErrors::from_vec(vec![
        ConfigError::MissingField {
            path: "field1".to_string(),
            source_location: None,
            searched_sources: vec![],
        },
        ConfigError::MissingField {
            path: "field2".to_string(),
            source_location: None,
            searched_sources: vec![],
        },
        ConfigError::MissingField {
            path: "field3".to_string(),
            source_location: None,
            searched_sources: vec![],
        },
    ])
    .unwrap();

    let output = errors.format(&PrettyPrintOptions::show_all());

    assert!(output.contains("field1"));
    assert!(output.contains("field2"));
    assert!(output.contains("field3"));
    assert!(!output.contains("...and"));
}

#[test]
fn test_suggestions_shown() {
    let errors = ConfigErrors::from_vec(vec![
        ConfigError::MissingField {
            path: "database.host".to_string(),
            source_location: None,
            searched_sources: vec![],
        },
        ConfigError::UnknownField {
            path: "hoost".to_string(),
            source_location: SourceLocation::new("config.toml"),
            did_you_mean: Some("host".to_string()),
        },
    ])
    .unwrap();

    let output = errors.format(&PrettyPrintOptions::no_color());

    assert!(output.contains("Hints:"));
    assert!(output.contains("Add 'database.host' to your configuration"));
    assert!(output.contains("Change 'hoost' to 'host'"));
}

#[test]
fn test_no_suggestions_when_disabled() {
    let errors = ConfigErrors::single(ConfigError::MissingField {
        path: "database.host".to_string(),
        source_location: None,
        searched_sources: vec![],
    });

    let options = PrettyPrintOptions::no_color().with_suggestions(false);
    let output = errors.format(&options);

    assert!(!output.contains("Hints:"));
}

#[test]
fn test_grouping_by_source() {
    let errors = ConfigErrors::from_vec(vec![
        ConfigError::ParseError {
            path: "port".to_string(),
            source_location: SourceLocation::new("config.toml"),
            expected_type: "integer".to_string(),
            actual_value: "abc".to_string(),
            message: "invalid".to_string(),
        },
        ConfigError::ValidationError {
            path: "host".to_string(),
            source_location: Some(SourceLocation::new("config.toml")),
            value: Some("".to_string()),
            message: "empty".to_string(),
        },
        ConfigError::ParseError {
            path: "timeout".to_string(),
            source_location: SourceLocation::new("env:APP_TIMEOUT"),
            expected_type: "integer".to_string(),
            actual_value: "xyz".to_string(),
            message: "invalid".to_string(),
        },
    ])
    .unwrap();

    let options = PrettyPrintOptions::no_color().with_grouping(true);
    let output = errors.format(&options);

    // Should have source headers
    assert!(output.contains("config.toml:"));
    assert!(output.contains("env:APP_TIMEOUT:"));
}

#[test]
fn test_flat_output_without_grouping() {
    let errors = ConfigErrors::from_vec(vec![
        ConfigError::ParseError {
            path: "port".to_string(),
            source_location: SourceLocation::new("config.toml"),
            expected_type: "integer".to_string(),
            actual_value: "abc".to_string(),
            message: "invalid".to_string(),
        },
        ConfigError::ValidationError {
            path: "host".to_string(),
            source_location: Some(SourceLocation::new("env:APP_HOST")),
            value: Some("".to_string()),
            message: "empty".to_string(),
        },
    ])
    .unwrap();

    let options = PrettyPrintOptions::no_color().with_grouping(false);
    let output = errors.format(&options);

    // Should have errors but no source headers for grouping
    assert!(output.contains("port"));
    assert!(output.contains("host"));
}

#[test]
fn test_color_option_always() {
    let errors = ConfigErrors::single(ConfigError::NoSources);
    let options = PrettyPrintOptions::default().with_color(ColorOption::Always);
    let output = errors.format(&options);

    // Should contain ANSI escape codes
    assert!(output.contains("\x1b["));
}

#[test]
fn test_color_option_never() {
    let errors = ConfigErrors::single(ConfigError::NoSources);
    let options = PrettyPrintOptions::default().with_color(ColorOption::Never);
    let output = errors.format(&options);

    // Should not contain ANSI escape codes
    assert!(!output.contains("\x1b["));
}

