use premortem::env::MockEnv;
use premortem::error::{ConfigError, SourceErrorKind};
use premortem::source::Source;
use premortem::sources::Toml;
use premortem::value::Value;

fn float_of(v: &Value) -> Option<f64> {
    v.as_float_text().and_then(|t| t.parse::<f64>().ok())
}

#[test]
fn test_toml_file_load() {
    let env = MockEnv::new().with_file(
        "config.toml",
        r#"
        host = "localhost"
        port = 8080
        "#,
    );

    let source = Toml::file("config.toml");
    let values = source.load(&env).expect("should load successfully");

    assert_eq!(values.get("host").map(|v| v.value.as_str()), Some(Some("localhost")));
    assert_eq!(values.get("port").map(|v| v.value.as_integer()), Some(Some(8080)));
}

#[test]
fn test_toml_file_missing_required() {
    let env = MockEnv::new();

    let source = Toml::file("missing.toml");
    let result = source.load(&env);

    assert!(result.is_err());
    let errors = result.unwrap_err();
    match errors.first() {
        ConfigError::SourceError { kind, .. } => {
            assert!(matches!(kind, SourceErrorKind::NotFound { .. }));
        }
        _ => panic!("Expected SourceError"),
    }
}

#[test]
fn test_toml_file_missing_optional() {
    let env = MockEnv::new();

    let source = Toml::file("missing.toml").optional();
    let values = source.load(&env).expect("should succeed with empty values");

    assert!(values.is_empty());
}

#[test]
fn test_toml_file_permission_denied() {
    let env = MockEnv::new().with_unreadable_file("secret.toml");

    let source = Toml::file("secret.toml");
    let result = source.load(&env);

    assert!(result.is_err());
    let errors = result.unwrap_err();
    match errors.first() {
        ConfigError::SourceError { kind, .. } => {
            assert!(matches!(kind, SourceErrorKind::IoError { .. }));
        }
        _ => panic!("Expected SourceError"),
    }
}

#[test]
fn test_toml_string_load() {
    let env = MockEnv::new();

    let source = Toml::string(
        r#"
        host = "localhost"
        port = 8080
        "#,
    );
    let values = source.load(&env).expect("should load successfully");

    assert_eq!(values.get("host").map(|v| v.value.as_str()), Some(Some("localhost")));
    assert_eq!(values.get("port").map(|v| v.value.as_integer()), Some(Some(8080)));
}

#[test]
fn test_toml_nested_tables() {
    let env = MockEnv::new().with_file(
        "config.toml",
        r#"
        [database]
        host = "localhost"
        port = 5432

        [database.pool]
        min_size = 5
        max_size = 20
        "#,
    );

    let source = Toml::file("config.toml");
    let values = source.load(&env).expect("should load successfully");

    assert_eq!(values.get("database.host").map(|v| v.value.as_str()), Some(Some("localhost")));
    assert_eq!(values.get("database.port").map(|v| v.value.as_integer()), Some(Some(5432)));
    assert_eq!(values.get("database.pool.min_size").map(|v| v.value.as_integer()), Some(Some(5)));
    assert_eq!(values.get("database.pool.max_size").map(|v| v.value.as_integer()), Some(Some(20)));
}

#[test]
fn test_toml_arrays() {
    let env = MockEnv::new().with_file(
        "config.toml",
        r#"
        hosts = ["host1", "host2", "host3"]
        "#,
    );

    let source = Toml::file("config.toml");
    let values = source.load(&env).expect("should load successfully");

    assert_eq!(values.get("hosts[0]").map(|v| v.value.as_str()), Some(Some("host1")));
    assert_eq!(values.get("hosts[1]").map(|v| v.value.as_str()), Some(Some("host2")));
    assert_eq!(values.get("hosts[2]").map(|v| v.value.as_str()), Some(Some("host3")));
    assert_eq!(values.get("hosts.__len").map(|v| v.value.as_integer()), Some(Some(3)));
}

#[test]
fn test_toml_all_value_types() {
    let env = MockEnv::new().with_file(
        "config.toml",
        r#"
        string_val = "hello"
        int_val = 42
        float_val = 2.72
        bool_val = true
        date_val = 2024-01-15
        "#,
    );

    let source = Toml::file("config.toml");
    let values = source.load(&env).expect("should load successfully");

    assert_eq!(values.get("string_val").map(|v| v.value.as_str()), Some(Some("hello")));
    assert_eq!(values.get("int_val").map(|v| v.value.as_integer()), Some(Some(42)));
    assert_eq!(values.get("float_val").map(|v| float_of(&v.value)), Some(Some(2.72)));
    assert_eq!(values.get("bool_val").map(|v| v.value.as_bool()), Some(Some(true)));
    assert!(values.get("date_val").map(|v| v.value.as_str()).is_some());
}

#[test]
fn test_toml_parse_error_with_location() {
    let env = MockEnv::new().with_file(
        "config.toml",
        r#"
        host = "localhost"
        port = "not a number
        "#,
    );

    let source = Toml::file("config.toml");
    let result = source.load(&env);

    assert!(result.is_err());
    let errors = result.unwrap_err();
    match errors.first() {
        ConfigError::SourceError { kind, .. } => {
            assert!(matches!(kind, SourceErrorKind::ParseError { line: Some(_), .. }));
        }
        _ => panic!("Expected SourceError"),
    }
}

#[test]
fn test_toml_custom_name() {
    let env = MockEnv::new().with_file("config.toml", "host = \"localhost\"");

    let source = Toml::file("config.toml").named("production config");
    assert_eq!(source.name(), "production config");

    let values = source.load(&env).expect("should load successfully");
    assert_eq!(values.get("host").unwrap().source.source, "production config");
}

#[test]
fn test_toml_required_method() {
    let source = Toml::file("config.toml").optional().required();
    let env = MockEnv::new();
    let result = source.load(&env);

    assert!(result.is_err());
}

#[test]
fn test_toml_inline_tables() {
    let env = MockEnv::new().with_file(
        "config.toml",
        r#"
        server = { host = "localhost", port = 8080 }
        "#,
    );

    let source = Toml::file("config.toml");
    let values = source.load(&env).expect("should load successfully");

    assert_eq!(values.get("server.host").map(|v| v.value.as_str()), Some(Some("localhost")));
    assert_eq!(values.get("server.port").map(|v| v.value.as_integer()), Some(Some(8080)));
}

#[test]
fn test_toml_array_of_tables() {
    let env = MockEnv::new().with_file(
        "config.toml",
        r#"
        [[servers]]
        name = "server1"
        port = 8080

        [[servers]]
        name = "server2"
        port = 8081
        "#,
    );

    let source = Toml::file("config.toml");
    let values = source.load(&env).expect("should load successfully");

    assert_eq!(values.get("servers[0].name").map(|v| v.value.as_str()), Some(Some("server1")));
    assert_eq!(values.get("servers[0].port").map(|v| v.value.as_integer()), Some(Some(8080)));
    assert_eq!(values.get("servers[1].name").map(|v| v.value.as_str()), Some(Some("server2")));
    assert_eq!(values.get("servers[1].port").map(|v| v.value.as_integer()), Some(Some(8081)));
    assert_eq!(values.get("servers.__len").map(|v| v.value.as_integer()), Some(Some(2)));
}

#[test]
fn test_toml_source_location_tracking() {
    let env = MockEnv::new().with_file(
        "config.toml",
        r#"
        host = "localhost"
        "#,
    );

    let source = Toml::file("config.toml");
    let values = source.load(&env).expect("should load successfully");

    let host_value = values.get("host").expect("host should exist");
    assert_eq!(host_value.source.source, "config.toml");
}

#[test]
fn test_toml_line_number_tracking() {
    let env = MockEnv::new().with_file("config.toml", "host = \"localhost\"\nport = 8080\ndebug = true");

    let source = Toml::file("config.toml");
    let values = source.load(&env).expect("should load successfully");

    let host_value = values.get("host").expect("host should exist");
    assert_eq!(host_value.source.source, "config.toml");
    assert_eq!(host_value.source.line, Some(1));

    let port_value = values.get("port").expect("port should exist");
    assert_eq!(port_value.source.line, Some(2));

    let debug_value = values.get("debug").expect("debug should exist");
    assert_eq!(debug_value.source.line, Some(3));
}

#[test]
fn test_toml_nested_table_line_tracking() {
    let env = MockEnv::new().with_file("config.toml", "[database]\nhost = \"localhost\"\nport = 5432");

    let source = Toml::file("config.toml");
    let values = source.load(&env).expect("should load successfully");

    let host_value = values.get("database.host").expect("host should exist");
    assert_eq!(host_value.source.line, Some(2));

    let port_value = values.get("database.port").expect("port should exist");
    assert_eq!(port_value.source.line, Some(3));
}
