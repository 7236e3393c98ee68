use premortem::env::MockEnv;
use premortem::error::{ConfigError, SourceErrorKind};
use premortem::source::Source;
use premortem::sources::Json;
use premortem::value::Value;

fn float_of(v: &Value) -> Option<f64> {
    v.as_float_text().and_then(|t| t.parse::<f64>().ok())
}

#[test]
fn test_json_file_load() {
    let env = MockEnv::new().with_file("config.json", r#"{"host": "localhost", "port": 8080}"#);

    let source = Json::file("config.json");
    let values = source.load(&env).expect("should load successfully");

    assert_eq!(values.get("host").map(|v| v.value.as_str()), Some(Some("localhost")));
    assert_eq!(values.get("port").map(|v| v.value.as_integer()), Some(Some(8080)));
}

#[test]
fn test_json_file_missing_required() {
    let env = MockEnv::new();

    let source = Json::file("missing.json");
    let result = source.load(&env);

    assert!(result.is_err());
    let errors = result.unwrap_err();
    match errors.first() {
        ConfigError::SourceError { kind, .. } => {
            assert!(matches!(kind, SourceErrorKind::NotFound { .. }));
        }
        _ => panic!("Expected SourceError"),
    }
}

#[test]
fn test_json_file_missing_optional() {
    let env = MockEnv::new();

    let source = Json::file("missing.json").optional();
    let values = source.load(&env).expect("should succeed with empty values");

    assert!(values.is_empty());
}

#[test]
fn test_json_file_permission_denied() {
    let env = MockEnv::new().with_unreadable_file("secret.json");

    let source = Json::file("secret.json");
    let result = source.load(&env);

    assert!(result.is_err());
    let errors = result.unwrap_err();
    match errors.first() {
        ConfigError::SourceError { kind, .. } => {
            assert!(matches!(kind, SourceErrorKind::IoError { .. }));
        }
        _ => panic!("Expected SourceError"),
    }
}

#[test]
fn test_json_string_load() {
    let env = MockEnv::new();

    let source = Json::string(r#"{"host": "localhost", "port": 8080}"#);
    let values = source.load(&env).expect("should load successfully");

    assert_eq!(values.get("host").map(|v| v.value.as_str()), Some(Some("localhost")));
    assert_eq!(values.get("port").map(|v| v.value.as_integer()), Some(Some(8080)));
}

#[test]
fn test_json_nested_objects() {
    let env = MockEnv::new().with_file(
        "config.json",
        r#"{
            "database": {
                "host": "localhost",
                "port": 5432,
                "pool": {
                    "min_size": 5,
                    "max_size": 20
                }
            }
        }"#,
    );

    let source = Json::file("config.json");
    let values = source.load(&env).expect("should load successfully");

    assert_eq!(values.get("database.host").map(|v| v.value.as_str()), Some(Some("localhost")));
    assert_eq!(values.get("database.port").map(|v| v.value.as_integer()), Some(Some(5432)));
    assert_eq!(values.get("database.pool.min_size").map(|v| v.value.as_integer()), Some(Some(5)));
    assert_eq!(values.get("database.pool.max_size").map(|v| v.value.as_integer()), Some(Some(20)));
}

#[test]
fn test_json_arrays() {
    let env = MockEnv::new().with_file("config.json", r#"{"hosts": ["host1", "host2", "host3"]}"#);

    let source = Json::file("config.json");
    let values = source.load(&env).expect("should load successfully");

    assert_eq!(values.get("hosts[0]").map(|v| v.value.as_str()), Some(Some("host1")));
    assert_eq!(values.get("hosts[1]").map(|v| v.value.as_str()), Some(Some("host2")));
    assert_eq!(values.get("hosts[2]").map(|v| v.value.as_str()), Some(Some("host3")));
    assert_eq!(values.get("hosts.__len").map(|v| v.value.as_integer()), Some(Some(3)));
}

#[test]
fn test_json_all_value_types() {
    let env = MockEnv::new().with_file(
        "config.json",
        r#"{
            "string_val": "hello",
            "int_val": 42,
            "float_val": 2.72,
            "bool_val": true,
            "null_val": null
        }"#,
    );

    let source = Json::file("config.json");
    let values = source.load(&env).expect("should load successfully");

    assert_eq!(values.get("string_val").map(|v| v.value.as_str()), Some(Some("hello")));
    assert_eq!(values.get("int_val").map(|v| v.value.as_integer()), Some(Some(42)));
    assert_eq!(values.get("float_val").map(|v| float_of(&v.value)), Some(Some(2.72)));
    assert_eq!(values.get("bool_val").map(|v| v.value.as_bool()), Some(Some(true)));
    assert!(values.get("null_val").is_some());
    assert!(values.get("null_val").unwrap().value.is_null());
}

#[test]
fn test_json_parse_error_with_location() {
    let env = MockEnv::new().with_file("config.json", r#"{"host": "localhost", "port": }"#);

    let source = Json::file("config.json");
    let result = source.load(&env);

    assert!(result.is_err());
    let errors = result.unwrap_err();
    match errors.first() {
        ConfigError::SourceError { kind, .. } => {
            assert!(matches!(
                kind,
                SourceErrorKind::ParseError { line: Some(_), column: Some(_), .. }
            ));
        }
        _ => panic!("Expected SourceError"),
    }
}

#[test]
fn test_json_custom_name() {
    let env = MockEnv::new().with_file("config.json", r#"{"host": "localhost"}"#);

    let source = Json::file("config.json").named("production config");
    assert_eq!(source.name(), "production config");

    let values = source.load(&env).expect("should load successfully");
    assert_eq!(values.get("host").unwrap().source.source, "production config");
}

#[test]
fn test_json_required_method() {
    let source = Json::file("config.json").optional().required();
    let env = MockEnv::new();
    let result = source.load(&env);

    assert!(result.is_err());
}

#[test]
fn test_json_source_location_tracking() {
    let env = MockEnv::new().with_file("config.json", r#"{"host": "localhost"}"#);

    let source = Json::file("config.json");
    let values = source.load(&env).expect("should load successfully");

    let host_value = values.get("host").expect("host should exist");
    assert_eq!(host_value.source.source, "config.json");
}

#[test]
fn test_json_array_of_objects() {
    let env = MockEnv::new().with_file(
        "config.json",
        r#"{
            "servers": [
                {"name": "server1", "port": 8080},
                {"name": "server2", "port": 8081}
            ]
        }"#,
    );

    let source = Json::file("config.json");
    let values = source.load(&env).expect("should load successfully");

    assert_eq!(values.get("servers[0].name").map(|v| v.value.as_str()), Some(Some("server1")));
    assert_eq!(values.get("servers[0].port").map(|v| v.value.as_integer()), Some(Some(8080)));
    assert_eq!(values.get("servers[1].name").map(|v| v.value.as_str()), Some(Some("server2")));
    assert_eq!(values.get("servers[1].port").map(|v| v.value.as_integer()), Some(Some(8081)));
    assert_eq!(values.get("servers.__len").map(|v| v.value.as_integer()), Some(Some(2)));
}

#[test]
fn test_json_large_integer() {
    let env = MockEnv::new().with_file("config.json", r#"{"large_int": 9007199254740992}"#);

    let source = Json::file("config.json");
    let values = source.load(&env).expect("should load successfully");

    assert_eq!(
        values.get("large_int").map(|v| v.value.as_integer()),
        Some(Some(9007199254740992))
    );
}

#[test]
fn test_json_negative_numbers() {
    let env = MockEnv::new().with_file(
        "config.json",
        r#"{"negative_int": -42, "negative_float": -3.14}"#,
    );

    let source = Json::file("config.json");
    let values = source.load(&env).expect("should load successfully");

    assert_eq!(values.get("negative_int").map(|v| v.value.as_integer()), Some(Some(-42)));
    assert_eq!(values.get("negative_float").map(|v| float_of(&v.value)), Some(Some(-3.14)));
}

#[test]
fn json_watch_path_is_the_file() {
    assert_eq!(Json::file("config.json").watch_path(), Some("config.json".to_string()));
    assert_eq!(Json::string("{}").watch_path(), None);
}
