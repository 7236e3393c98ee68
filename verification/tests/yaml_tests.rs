use premortem::env::MockEnv;
use premortem::error::{ConfigError, SourceErrorKind};
use premortem::source::Source;
use premortem::sources::yaml_source::Yaml;
use premortem::value::Value;

fn float_of(v: &Value) -> Option<f64> {
    v.as_float_text().and_then(|t| t.parse::<f64>().ok())
}

#[test]
fn test_yaml_file_load() {
    let env = MockEnv::new().with_file("config.yaml", "host: localhost\nport: 8080");

    let source = Yaml::file("config.yaml");
    let values = source.load(&env).expect("should load successfully");

    assert_eq!(
        values.get("host").map(|v| v.value.as_str()),
        Some(Some("localhost"))
    );
    assert_eq!(
        values.get("port").map(|v| v.value.as_integer()),
        Some(Some(8080))
    );
}

#[test]
fn test_yaml_file_missing_required() {
    let env = MockEnv::new();

    let source = Yaml::file("missing.yaml");
    let result = source.load(&env);

    assert!(result.is_err());
    let errors = result.unwrap_err();
    match errors.first() {
        ConfigError::SourceError { kind, .. } => {
            assert!(matches!(kind, SourceErrorKind::NotFound { .. }));
        }
        _ => panic!("Expected SourceError"),
    }
}

#[test]
fn test_yaml_file_missing_optional() {
    let env = MockEnv::new();

    let source = Yaml::file("missing.yaml").optional();
    let values = source.load(&env).expect("should succeed with empty values");

    assert!(values.is_empty());
}

#[test]
fn test_yaml_file_permission_denied() {
    let env = MockEnv::new().with_unreadable_file("secret.yaml");

    let source = Yaml::file("secret.yaml");
    let result = source.load(&env);

    assert!(result.is_err());
    let errors = result.unwrap_err();
    match errors.first() {
        ConfigError::SourceError { kind, .. } => {
            assert!(matches!(kind, SourceErrorKind::IoError { .. }));
        }
        _ => panic!("Expected SourceError"),
    }
}

#[test]
fn test_yaml_string_load() {
    let env = MockEnv::new();

    let source = Yaml::string("host: localhost\nport: 8080");
    let values = source.load(&env).expect("should load successfully");

    assert_eq!(
        values.get("host").map(|v| v.value.as_str()),
        Some(Some("localhost"))
    );
    assert_eq!(
        values.get("port").map(|v| v.value.as_integer()),
        Some(Some(8080))
    );
}

#[test]
fn test_yaml_nested_objects() {
    let env = MockEnv::new().with_file(
        "config.yaml",
        r#"
database:
  host: localhost
  port: 5432
  pool:
    min_size: 5
    max_size: 20
"#,
    );

    let source = Yaml::file("config.yaml");
    let values = source.load(&env).expect("should load successfully");

    assert_eq!(
        values.get("database.host").map(|v| v.value.as_str()),
        Some(Some("localhost"))
    );
    assert_eq!(
        values.get("database.port").map(|v| v.value.as_integer()),
        Some(Some(5432))
    );
    assert_eq!(
        values
            .get("database.pool.min_size")
            .map(|v| v.value.as_integer()),
        Some(Some(5))
    );
    assert_eq!(
        values
            .get("database.pool.max_size")
            .map(|v| v.value.as_integer()),
        Some(Some(20))
    );
}

#[test]
fn test_yaml_arrays() {
    let env = MockEnv::new().with_file(
        "config.yaml",
        r#"
hosts:
  - host1
  - host2
  - host3
"#,
    );

    let source = Yaml::file("config.yaml");
    let values = source.load(&env).expect("should load successfully");

    assert_eq!(
        values.get("hosts[0]").map(|v| v.value.as_str()),
        Some(Some("host1"))
    );
    assert_eq!(
        values.get("hosts[1]").map(|v| v.value.as_str()),
        Some(Some("host2"))
    );
    assert_eq!(
        values.get("hosts[2]").map(|v| v.value.as_str()),
        Some(Some("host3"))
    );
    assert_eq!(
        values.get("hosts.__len").map(|v| v.value.as_integer()),
        Some(Some(3))
    );
}

#[test]
fn test_yaml_all_value_types() {
    let env = MockEnv::new().with_file(
        "config.yaml",
        r#"
string_val: hello
int_val: 42
float_val: 2.72
bool_val: true
null_val: null
"#,
    );

    let source = Yaml::file("config.yaml");
    let values = source.load(&env).expect("should load successfully");

    assert_eq!(
        values.get("string_val").map(|v| v.value.as_str()),
        Some(Some("hello"))
    );
    assert_eq!(
        values.get("int_val").map(|v| v.value.as_integer()),
        Some(Some(42))
    );
    assert_eq!(
        values.get("float_val").map(|v| float_of(&v.value)),
        Some(Some(2.72))
    );
    assert_eq!(
        values.get("bool_val").map(|v| v.value.as_bool()),
        Some(Some(true))
    );
    // Null value should be present
    assert!(values.get("null_val").is_some());
    assert!(values.get("null_val").unwrap().value.is_null());
}

#[test]
fn test_yaml_parse_error_with_location() {
    let env = MockEnv::new().with_file("config.yaml", "host: localhost\nport: [invalid");

    let source = Yaml::file("config.yaml");
    let result = source.load(&env);

    assert!(result.is_err());
    let errors = result.unwrap_err();
    match errors.first() {
        ConfigError::SourceError { kind, .. } => {
            assert!(matches!(kind, SourceErrorKind::ParseError { .. }));
        }
        _ => panic!("Expected SourceError"),
    }
}

#[test]
fn test_yaml_custom_name() {
    let env = MockEnv::new().with_file("config.yaml", "host: localhost");

    let source = Yaml::file("config.yaml").named("production config");
    assert_eq!(source.name(), "production config");

    let values = source.load(&env).expect("should load successfully");
    assert_eq!(
        values.get("host").unwrap().source.source,
        "production config"
    );
}

#[test]
fn test_yaml_required_method() {
    let source = Yaml::file("config.yaml").optional().required();
    let env = MockEnv::new();
    let result = source.load(&env);

    // Should fail because file is missing and source is required
    assert!(result.is_err());
}

#[test]
fn test_yaml_source_location_tracking() {
    let env = MockEnv::new().with_file("config.yaml", "host: localhost");

    let source = Yaml::file("config.yaml");
    let values = source.load(&env).expect("should load successfully");

    let host_value = values.get("host").expect("host should exist");
    assert_eq!(host_value.source.source, "config.yaml");
}

#[test]
fn test_yaml_array_of_objects() {
    let env = MockEnv::new().with_file(
        "config.yaml",
        r#"
servers:
  - name: server1
    port: 8080
  - name: server2
    port: 8081
"#,
    );

    let source = Yaml::file("config.yaml");
    let values = source.load(&env).expect("should load successfully");

    assert_eq!(
        values.get("servers[0].name").map(|v| v.value.as_str()),
        Some(Some("server1"))
    );
    assert_eq!(
        values.get("servers[0].port").map(|v| v.value.as_integer()),
        Some(Some(8080))
    );
    assert_eq!(
        values.get("servers[1].name").map(|v| v.value.as_str()),
        Some(Some("server2"))
    );
    assert_eq!(
        values.get("servers[1].port").map(|v| v.value.as_integer()),
        Some(Some(8081))
    );
    assert_eq!(
        values.get("servers.__len").map(|v| v.value.as_integer()),
        Some(Some(2))
    );
}

#[test]
fn test_yaml_large_integer() {
    let env = MockEnv::new().with_file("config.yaml", "large_int: 9007199254740992");

    let source = Yaml::file("config.yaml");
    let values = source.load(&env).expect("should load successfully");

    assert_eq!(
        values.get("large_int").map(|v| v.value.as_integer()),
        Some(Some(9007199254740992))
    );
}

#[test]
fn test_yaml_negative_numbers() {
    let env =
        MockEnv::new().with_file("config.yaml", "negative_int: -42\nnegative_float: -2.75");

    let source = Yaml::file("config.yaml");
    let values = source.load(&env).expect("should load successfully");

    assert_eq!(
        values.get("negative_int").map(|v| v.value.as_integer()),
        Some(Some(-42))
    );
    assert_eq!(
        values.get("negative_float").map(|v| float_of(&v.value)),
        Some(Some(-2.75))
    );
}

#[test]
fn test_yaml_line_number_tracking() {
    let env =
        MockEnv::new().with_file("config.yaml", "host: localhost\nport: 8080\ndebug: true");

    let source = Yaml::file("config.yaml");
    let values = source.load(&env).expect("should load successfully");

    // host is on line 1
    let host_value = values.get("host").expect("host should exist");
    assert_eq!(host_value.source.source, "config.yaml");
    assert_eq!(host_value.source.line, Some(1));

    // port is on line 2
    let port_value = values.get("port").expect("port should exist");
    assert_eq!(port_value.source.line, Some(2));

    // debug is on line 3
    let debug_value = values.get("debug").expect("debug should exist");
    assert_eq!(debug_value.source.line, Some(3));
}

#[test]
fn test_yaml_nested_object_line_tracking() {
    let env =
        MockEnv::new().with_file("config.yaml", "database:\n  host: localhost\n  port: 5432");

    let source = Yaml::file("config.yaml");
    let values = source.load(&env).expect("should load successfully");

    // database.host is on line 2
    let host_value = values.get("database.host").expect("host should exist");
    assert_eq!(host_value.source.line, Some(2));

    // database.port is on line 3
    let port_value = values.get("database.port").expect("port should exist");
    assert_eq!(port_value.source.line, Some(3));
}

#[test]
fn test_yaml_anchors_and_aliases() {
    // Test simple anchor and alias resolution (not merge keys)
    // serde_yaml resolves aliases automatically during parsing
    let env = MockEnv::new().with_file(
        "config.yaml",
        r#"
default_timeout: &timeout 30

database:
  timeout: *timeout
  host: localhost
"#,
    );

    let source = Yaml::file("config.yaml");
    let values = source.load(&env).expect("should load successfully");

    // Alias value should be resolved to the anchor value
    assert_eq!(
        values.get("database.timeout").map(|v| v.value.as_integer()),
        Some(Some(30))
    );
    assert_eq!(
        values.get("database.host").map(|v| v.value.as_str()),
        Some(Some("localhost"))
    );
    // The anchor source is also available
    assert_eq!(
        values.get("default_timeout").map(|v| v.value.as_integer()),
        Some(Some(30))
    );
}

#[test]
fn test_yaml_optional_method() {
    let source = Yaml::file("config.yaml").optional();
    let env = MockEnv::new();
    let result = source.load(&env);

    // Should succeed with empty values
    assert!(result.is_ok());
    assert!(result.unwrap().is_empty());
}

