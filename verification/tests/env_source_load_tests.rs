use premortem::env::MockEnv;
use premortem::error::ConfigError;
use premortem::source::Source;
use premortem::sources::env_source::{parse_env_value, parse_scalar, Env};
use premortem::text::trim;
use premortem::value::Value;

fn float_of(v: &Value) -> Option<f64> {
    v.as_float_text().and_then(|t| t.parse::<f64>().ok())
}

#[test]
fn test_env_basic_prefix() {
    let env = MockEnv::new()
        .with_env("APP_HOST", "localhost")
        .with_env("APP_PORT", "8080")
        .with_env("OTHER_VAR", "ignored");

    let source = Env::prefix("APP_");
    let values = source.load(&env).expect("should load successfully");

    assert_eq!(values.get("host").map(|v| v.value.as_str()), Some(Some("localhost")));
    assert_eq!(values.get("port").map(|v| v.value.as_integer()), Some(Some(8080)));
    assert!(values.get("other_var").is_none());
}

#[test]
fn test_env_nested_paths() {
    let env = MockEnv::new()
        .with_env("APP_DATABASE_HOST", "localhost")
        .with_env("APP_DATABASE_PORT", "5432")
        .with_env("APP_DATABASE_POOL_SIZE", "10");

    let source = Env::prefix("APP_");
    let values = source.load(&env).expect("should load successfully");

    assert_eq!(values.get("database.host").map(|v| v.value.as_str()), Some(Some("localhost")));
    assert_eq!(values.get("database.port").map(|v| v.value.as_integer()), Some(Some(5432)));
    assert_eq!(values.get("database.pool.size").map(|v| v.value.as_integer()), Some(Some(10)));
}

#[test]
fn test_env_custom_separator() {
    let env = MockEnv::new()
        .with_env("APP__DATABASE__HOST", "localhost")
        .with_env("APP__SERVER__PORT", "8080");

    let source = Env::prefix("APP__").separator("__");
    let values = source.load(&env).expect("should load successfully");

    assert_eq!(values.get("database.host").map(|v| v.value.as_str()), Some(Some("localhost")));
    assert_eq!(values.get("server.port").map(|v| v.value.as_integer()), Some(Some(8080)));
}

#[test]
fn test_env_custom_mapping() {
    let env = MockEnv::new()
        .with_env("APP_DB_HOST", "localhost")
        .with_env("APP_DB_PORT", "5432");

    let source = Env::prefix("APP_")
        .map("DB_HOST", "database.host")
        .map("DB_PORT", "database.port");

    let values = source.load(&env).expect("should load successfully");

    assert_eq!(values.get("database.host").map(|v| v.value.as_str()), Some(Some("localhost")));
    assert_eq!(values.get("database.port").map(|v| v.value.as_integer()), Some(Some(5432)));
}

#[test]
fn test_env_exclusions() {
    let env = MockEnv::new()
        .with_env("APP_HOST", "localhost")
        .with_env("APP_SECRET", "super_secret");

    let source = Env::prefix("APP_").exclude("APP_SECRET");
    let values = source.load(&env).expect("should load successfully");

    assert_eq!(values.get("host").map(|v| v.value.as_str()), Some(Some("localhost")));
    assert!(values.get("secret").is_none());
}

#[test]
fn test_env_list_separator() {
    let env = MockEnv::new()
        .with_env("APP_HOSTS", "host1.com,host2.com,host3.com")
        .with_env("APP_SINGLE", "just_one");

    let source = Env::prefix("APP_").list_separator(",");
    let values = source.load(&env).expect("should load successfully");

    let hosts = values.get("hosts").map(|v| v.value.as_array());
    assert!(hosts.is_some());
    let hosts = hosts.unwrap().unwrap();
    assert_eq!(hosts.len(), 3);
    assert_eq!(hosts[0].as_str(), Some("host1.com"));
    assert_eq!(hosts[1].as_str(), Some("host2.com"));
    assert_eq!(hosts[2].as_str(), Some("host3.com"));

    assert_eq!(values.get("single").map(|v| v.value.as_str()), Some(Some("just_one")));
}

#[test]
fn test_env_type_inference_bool() {
    let env = MockEnv::new()
        .with_env("APP_TRUE1", "true")
        .with_env("APP_TRUE2", "yes")
        .with_env("APP_TRUE3", "1")
        .with_env("APP_TRUE4", "on")
        .with_env("APP_FALSE1", "false")
        .with_env("APP_FALSE2", "no")
        .with_env("APP_FALSE3", "0")
        .with_env("APP_FALSE4", "off");

    let source = Env::prefix("APP_");
    let values = source.load(&env).expect("should load successfully");

    for k in ["true1", "true2", "true3", "true4"] {
        assert_eq!(values.get(k).map(|v| v.value.as_bool()), Some(Some(true)));
    }
    for k in ["false1", "false2", "false3", "false4"] {
        assert_eq!(values.get(k).map(|v| v.value.as_bool()), Some(Some(false)));
    }
}

#[test]
fn test_env_type_inference_numbers() {
    let env = MockEnv::new()
        .with_env("APP_INT", "42")
        .with_env("APP_NEGATIVE", "-10")
        .with_env("APP_FLOAT", "3.25")
        .with_env("APP_SCIENTIFIC", "1.5e10");

    let source = Env::prefix("APP_");
    let values = source.load(&env).expect("should load successfully");

    assert_eq!(values.get("int").map(|v| v.value.as_integer()), Some(Some(42)));
    assert_eq!(values.get("negative").map(|v| v.value.as_integer()), Some(Some(-10)));
    assert_eq!(values.get("float").map(|v| float_of(&v.value)), Some(Some(3.25)));
    let scientific = values.get("scientific").map(|v| float_of(&v.value));
    assert!(scientific.is_some());
    assert!((scientific.unwrap().unwrap() - 1.5e10).abs() < 1.0);
}

#[test]
fn test_env_type_inference_string() {
    let env = MockEnv::new()
        .with_env("APP_STRING", "hello world")
        .with_env("APP_URL", "https://example.com");

    let source = Env::prefix("APP_");
    let values = source.load(&env).expect("should load successfully");

    assert_eq!(values.get("string").map(|v| v.value.as_str()), Some(Some("hello world")));
    assert_eq!(values.get("url").map(|v| v.value.as_str()), Some(Some("https://example.com")));
}

#[test]
fn test_env_array_indices() {
    let env = MockEnv::new()
        .with_env("APP_SERVERS_0_HOST", "host1.com")
        .with_env("APP_SERVERS_0_PORT", "8080")
        .with_env("APP_SERVERS_1_HOST", "host2.com")
        .with_env("APP_SERVERS_1_PORT", "8081");

    let source = Env::prefix("APP_");
    let values = source.load(&env).expect("should load successfully");

    assert_eq!(values.get("servers[0].host").map(|v| v.value.as_str()), Some(Some("host1.com")));
    assert_eq!(values.get("servers[0].port").map(|v| v.value.as_integer()), Some(Some(8080)));
    assert_eq!(values.get("servers[1].host").map(|v| v.value.as_str()), Some(Some("host2.com")));
    assert_eq!(values.get("servers[1].port").map(|v| v.value.as_integer()), Some(Some(8081)));
}

#[test]
fn test_env_case_insensitive_default() {
    let env = MockEnv::new()
        .with_env("app_host", "lowercase")
        .with_env("APP_PORT", "8080");

    let source = Env::prefix("APP_");
    let values = source.load(&env).expect("should load successfully");

    assert_eq!(values.get("port").map(|v| v.value.as_integer()), Some(Some(8080)));
}

#[test]
fn test_env_source_location() {
    let env = MockEnv::new().with_env("APP_HOST", "localhost");

    let source = Env::prefix("APP_");
    let values = source.load(&env).expect("should load successfully");

    let host_value = values.get("host").expect("host should exist");
    assert_eq!(host_value.source.source, "env:APP_HOST");
}

#[test]
fn test_env_empty_prefix() {
    let env = MockEnv::new()
        .with_env("HOST", "localhost")
        .with_env("PORT", "8080");

    let source = Env::all();
    let values = source.load(&env).expect("should load successfully");

    assert_eq!(values.get("host").map(|v| v.value.as_str()), Some(Some("localhost")));
    assert_eq!(values.get("port").map(|v| v.value.as_integer()), Some(Some(8080)));
}

#[test]
fn test_parse_scalar_bool() {
    for t in ["true", "TRUE", "yes", "YES", "1", "on", "ON"] {
        assert_eq!(parse_scalar(t), Value::Bool(true));
    }
    for f in ["false", "FALSE", "no", "NO", "0", "off", "OFF"] {
        assert_eq!(parse_scalar(f), Value::Bool(false));
    }
}

#[test]
fn test_parse_scalar_integer() {
    assert_eq!(parse_scalar("42"), Value::Integer(42));
    assert_eq!(parse_scalar("-10"), Value::Integer(-10));
    assert_eq!(parse_scalar("1000000"), Value::Integer(1000000));
}

#[test]
fn test_parse_scalar_float() {
    assert_eq!(float_of(&parse_scalar("3.25")), Some(3.25));
    assert_eq!(float_of(&parse_scalar("-2.5")), Some(-2.5));
    assert_eq!(parse_scalar("3.25"), Value::Float("3.25".to_string()));
}

#[test]
fn test_parse_scalar_string() {
    assert_eq!(parse_scalar("hello"), Value::String("hello".to_string()));
    assert_eq!(parse_scalar("hello world"), Value::String("hello world".to_string()));
    assert_eq!(parse_scalar("True!"), Value::String("True!".to_string()));
}

#[test]
fn test_parse_env_value_list() {
    let value = parse_env_value("a,b,c", Some(","));
    match value {
        Value::Array(items) => {
            assert_eq!(items.len(), 3);
            assert_eq!(items[0], Value::String("a".to_string()));
            assert_eq!(items[1], Value::String("b".to_string()));
            assert_eq!(items[2], Value::String("c".to_string()));
        }
        _ => panic!("Expected array"),
    }
}

#[test]
fn test_parse_env_value_list_with_numbers() {
    let value = parse_env_value("1,2,3", Some(","));
    match value {
        Value::Array(items) => {
            assert_eq!(items.len(), 3);
            assert_eq!(items[0], Value::Bool(true));
            assert_eq!(items[1], Value::Integer(2));
            assert_eq!(items[2], Value::Integer(3));
        }
        _ => panic!("Expected array"),
    }
}

#[test]
fn test_parse_env_value_no_list_separator() {
    let value = parse_env_value("a,b,c", None);
    assert_eq!(value, Value::String("a,b,c".to_string()));
}

#[test]
fn test_env_list_with_trimming() {
    let env = MockEnv::new().with_env("APP_HOSTS", "host1 , host2 , host3");

    let source = Env::prefix("APP_").list_separator(",");
    let values = source.load(&env).expect("should load successfully");

    let hosts = values.get("hosts").map(|v| v.value.as_array());
    assert!(hosts.is_some());
    let hosts = hosts.unwrap().unwrap();
    assert_eq!(hosts.len(), 3);
    assert_eq!(hosts[0].as_str(), Some("host1"));
    assert_eq!(hosts[1].as_str(), Some("host2"));
    assert_eq!(hosts[2].as_str(), Some("host3"));
}

#[test]
fn required_vars_that_are_missing_are_all_reported() {
    let env = MockEnv::new().with_env("APP_PORT", "5432");
    let source = Env::prefix("APP_").require_all(&["APIKEY", "DATABASEURL", "PORT"]);
    let errors = source.load(&env).unwrap_err();
    assert_eq!(errors.len(), 2);
    let paths: Vec<Option<&str>> = errors.iter().map(|e| e.path()).collect();
    assert!(paths.contains(&Some("apikey")));
    assert!(paths.contains(&Some("databaseurl")));
    let first = errors.first();
    assert!(matches!(first, ConfigError::MissingField { .. }));
    assert_eq!(first.source_location().unwrap().source, "env:APP_APIKEY");
}

#[test]
fn list_parts_are_trimmed() {
    let env = MockEnv::new().with_env("APP_HOSTS", " alpha ,\tbeta , 7 ");
    let source = Env::prefix("APP_").list_separator(",");
    let values = source.load(&env).expect("should load successfully");
    let hosts = values.get("hosts").and_then(|v| v.value.as_array()).expect("an array");
    assert_eq!(hosts.len(), 3);
    assert_eq!(hosts[0].as_str(), Some("alpha"));
    assert_eq!(hosts[1].as_str(), Some("beta"));
    assert_eq!(hosts[2], Value::Integer(7));
}

#[test]
fn trim_removes_unicode_white_space_at_both_ends() {
    for t in ["\u{3000} a b\u{85}\t", "a b", "\u{2000}\u{200A}a b\u{2029}\u{A0}"] {
        assert_eq!(trim(t), t.trim());
        assert_eq!(trim(t), "a b");
    }
    assert_eq!(trim(" \u{2028} "), "");
    assert_eq!(trim("\u{200B}x"), "\u{200B}x");
}
