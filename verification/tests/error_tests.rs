use premortem::error::{ConfigError, ConfigErrors, SourceLocation};

#[test]
fn test_source_location_display() {
    let loc = SourceLocation::new("config.toml");
    assert_eq!(loc.to_display_string(), "config.toml");

    let loc = SourceLocation::new("config.toml").with_line(10);
    assert_eq!(loc.to_display_string(), "config.toml:10");

    let loc = SourceLocation::new("config.toml").with_line(10).with_column(5);
    assert_eq!(loc.to_display_string(), "config.toml:10:5");
}

#[test]
fn test_source_location_env() {
    let loc = SourceLocation::env("APP_HOST");
    assert_eq!(loc.source, "env:APP_HOST");
}

#[test]
fn test_config_error_path() {
    let err = ConfigError::MissingField {
        path: "database.host".to_string(),
        source_location: None,
        searched_sources: vec!["config.toml".to_string()],
    };
    assert_eq!(err.path(), Some("database.host"));

    let err = ConfigError::NoSources;
    assert_eq!(err.path(), None);
}

#[test]
fn test_prelude_source_location_available() {
    let loc = SourceLocation::new("config.toml");
    assert_eq!(loc.source, "config.toml");
}

#[test]
fn config_errors_combine_keeps_order() {
    let a = ConfigErrors::single(ConfigError::NoSources);
    let b = ConfigErrors::single(ConfigError::MissingField {
        path: "x".to_string(),
        source_location: None,
        searched_sources: vec![],
    });
    let c = a.combine(b);
    assert_eq!(c.len(), 2);
    assert_eq!(c.as_slice()[0].path(), None);
    assert_eq!(c.as_slice()[1].path(), Some("x"));
}

#[test]
fn missing_field_display_text() {
    let err = ConfigError::MissingField {
        path: "database.host".to_string(),
        source_location: None,
        searched_sources: vec!["config.toml".to_string(), "env".to_string()],
    };
    assert_eq!(
        err.to_display_string(),
        "missing required field 'database.host' (searched: config.toml, env)"
    );
}
