use premortem::error::{group_by_source, ConfigError, ConfigErrors, ConfigValidation, SourceLocation};
use premortem::source::{merge_config_values, ConfigValues};
use premortem::value::{ConfigValue, Value};

fn at<'a>(v: &'a Value, keys: &[&str]) -> Option<&'a Value> {
    let mut cur = v;
    for key in keys {
        cur = cur.as_table()?.iter().find(|(k, _)| k == key).map(|(_, x)| x)?;
    }
    Some(cur)
}

fn cv(v: Value) -> ConfigValue {
    ConfigValue::new(v, SourceLocation::new("test"))
}

#[test]
fn test_config_errors_single() {
    let errors = ConfigErrors::single(ConfigError::NoSources);
    assert_eq!(errors.len(), 1);
    assert!(!errors.is_empty());
}

#[test]
fn test_config_errors_combine() {
    let e1 = ConfigErrors::single(ConfigError::NoSources);
    let e2 = ConfigErrors::single(ConfigError::MissingField {
        path: "host".to_string(),
        source_location: None,
        searched_sources: vec![],
    });
    let combined = e1.combine(e2);
    assert_eq!(combined.len(), 2);
}

#[test]
fn test_config_validation_fail_with() {
    let result: ConfigValidation<i32> = ConfigValidation::fail_with(ConfigError::NoSources);
    assert!(result.is_failure());
}

#[test]
fn test_group_by_source() {
    let errors = ConfigErrors::from_vec(vec![
        ConfigError::ParseError {
            path: "port".to_string(),
            source_location: SourceLocation::new("config.toml"),
            expected_type: "integer".to_string(),
            actual_value: "abc".to_string(),
            message: "invalid digit".to_string(),
        },
        ConfigError::ValidationError {
            path: "host".to_string(),
            source_location: Some(SourceLocation::new("config.toml")),
            value: Some("".to_string()),
            message: "cannot be empty".to_string(),
        },
        ConfigError::MissingField {
            path: "database.url".to_string(),
            source_location: None,
            searched_sources: vec!["config.toml".to_string(), "env".to_string()],
        },
    ])
    .unwrap();

    let grouped = group_by_source(&errors);
    assert_eq!(grouped.len(), 2);
    let size = |k: &str| grouped.iter().find(|(g, _)| g == k).map(|(_, v)| v.len());
    assert_eq!(size("config.toml"), Some(2));
    assert_eq!(size("(general)"), Some(1));
}

#[test]
fn test_value_type_checks() {
    assert!(Value::Null.is_null());
    assert!(!Value::Bool(true).is_null());

    assert_eq!(Value::Bool(true).as_bool(), Some(true));
    assert_eq!(Value::Integer(42).as_integer(), Some(42));
    assert_eq!(Value::Float("2.71".to_string()).as_float_text(), Some("2.71".to_string()));
    assert_eq!(Value::Integer(42).as_float_text(), Some("42".to_string()));
    assert_eq!(Value::String("hello".to_string()).as_str(), Some("hello"));
}

#[test]
fn test_value_get_path() {
    let inner = vec![
        ("host".to_string(), Value::String("localhost".to_string())),
        ("port".to_string(), Value::Integer(5432)),
    ];
    let value = Value::Table(vec![("database".to_string(), Value::Table(inner))]);

    assert_eq!(value.get_path("database.host").and_then(|v| v.as_str()), Some("localhost"));
    assert_eq!(value.get_path("database.port").and_then(|v| v.as_integer()), Some(5432));
    assert!(value.get_path("database.password").is_none());
    assert!(value.get_path("other").is_none());
}

#[test]
fn test_value_type_name() {
    assert_eq!(Value::Null.kind_name(), "null");
    assert_eq!(Value::Bool(true).kind_name(), "boolean");
    assert_eq!(Value::Integer(42).kind_name(), "integer");
    assert_eq!(Value::Float("2.71".to_string()).kind_name(), "float");
    assert_eq!(Value::String("test".to_string()).kind_name(), "string");
    assert_eq!(Value::Array(vec![]).kind_name(), "array");
    assert_eq!(Value::Table(vec![]).kind_name(), "table");
}

#[test]
fn test_value_from_conversions() {
    assert_eq!(Value::from(true), Value::Bool(true));
    assert_eq!(Value::from(42i64), Value::Integer(42));
    assert_eq!(Value::from(42i32), Value::Integer(42));
    assert_eq!(Value::from("hello"), Value::String("hello".to_string()));
    assert_eq!(Value::from(String::from("hello")), Value::String("hello".to_string()));
}

#[test]
fn test_config_value() {
    let cv = ConfigValue::new("localhost".into(), SourceLocation::new("config.toml").with_line(5));
    assert_eq!(cv.value.as_str(), Some("localhost"));
    assert_eq!(cv.source.source, "config.toml");
    assert_eq!(cv.source.line, Some(5));
}

#[test]
fn test_config_values_basic() {
    let mut values = ConfigValues::empty();
    assert!(values.is_empty());

    values.insert("database.host".to_string(), cv(Value::String("localhost".to_string())));

    assert_eq!(values.len(), 1);
    assert!(values.contains("database.host"));
    assert!(!values.contains("database.port"));

    let val = values.get("database.host").unwrap();
    assert_eq!(val.value.as_str(), Some("localhost"));
}

#[test]
fn test_merge_config_values() {
    let mut v1 = ConfigValues::empty();
    v1.insert(
        "host".to_string(),
        ConfigValue::new(Value::String("localhost".to_string()), SourceLocation::new("file")),
    );
    v1.insert("port".to_string(), ConfigValue::new(Value::Integer(8080), SourceLocation::new("file")));

    let mut v2 = ConfigValues::empty();
    v2.insert(
        "host".to_string(),
        ConfigValue::new(Value::String("production".to_string()), SourceLocation::new("env")),
    );
    v2.insert("debug".to_string(), ConfigValue::new(Value::Bool(true), SourceLocation::new("env")));

    let merged = merge_config_values(vec![v1, v2]);

    assert_eq!(merged.get("host").unwrap().value.as_str(), Some("production"));
    assert_eq!(merged.get("port").unwrap().value.as_integer(), Some(8080));
    assert_eq!(merged.get("debug").unwrap().value.as_bool(), Some(true));
}

#[test]
fn test_config_values_to_json() {
    let mut values = ConfigValues::empty();
    values.insert("database.host".to_string(), cv(Value::String("localhost".to_string())));
    values.insert("database.port".to_string(), cv(Value::Integer(5432)));
    values.insert("debug".to_string(), cv(Value::Bool(true)));

    let json = values.to_json();

    assert_eq!(at(&json, &["database", "host"]).unwrap().as_str(), Some("localhost"));
    assert_eq!(at(&json, &["database", "port"]).unwrap().as_integer(), Some(5432));
    assert_eq!(at(&json, &["debug"]).unwrap().as_bool(), Some(true));
}

#[test]
fn test_to_json_with_simple_array() {
    let mut values = ConfigValues::empty();
    values.insert("hosts[0]".to_string(), cv(Value::String("host1".to_string())));
    values.insert("hosts[1]".to_string(), cv(Value::String("host2".to_string())));

    let json = values.to_json();

    let arr = at(&json, &["hosts"]).unwrap().as_array().unwrap();
    assert_eq!(arr.len(), 2);
    assert_eq!(arr[0].as_str(), Some("host1"));
    assert_eq!(arr[1].as_str(), Some("host2"));
}

#[test]
fn test_to_json_with_array_of_objects() {
    let mut values = ConfigValues::empty();
    values.insert("servers[0].host".to_string(), cv(Value::String("server1".to_string())));
    values.insert("servers[0].port".to_string(), cv(Value::Integer(8080)));
    values.insert("servers[1].host".to_string(), cv(Value::String("server2".to_string())));
    values.insert("servers[1].port".to_string(), cv(Value::Integer(8081)));

    let json = values.to_json();

    let arr = at(&json, &["servers"]).unwrap().as_array().unwrap();
    assert_eq!(arr.len(), 2);
    assert_eq!(at(&arr[0], &["host"]).unwrap().as_str(), Some("server1"));
    assert_eq!(at(&arr[0], &["port"]).unwrap().as_integer(), Some(8080));
    assert_eq!(at(&arr[1], &["host"]).unwrap().as_str(), Some("server2"));
    assert_eq!(at(&arr[1], &["port"]).unwrap().as_integer(), Some(8081));
}

#[test]
fn test_to_json_skips_len_metadata() {
    let mut values = ConfigValues::empty();
    values.insert("hosts[0]".to_string(), cv(Value::String("host1".to_string())));
    values.insert("hosts.__len".to_string(), cv(Value::Integer(1)));

    let json = values.to_json();

    assert!(at(&json, &["hosts"]).unwrap().as_array().is_some());
    assert!(at(&json, &["hosts", "__len"]).is_none());
}

#[test]
fn test_to_json_mixed_object_and_array() {
    let mut values = ConfigValues::empty();
    values.insert("config.name".to_string(), cv(Value::String("myapp".to_string())));
    values.insert("config.hosts[0]".to_string(), cv(Value::String("localhost".to_string())));
    values.insert("config.hosts[1]".to_string(), cv(Value::String("remote".to_string())));

    let json = values.to_json();

    assert_eq!(at(&json, &["config", "name"]).unwrap().as_str(), Some("myapp"));
    let arr = at(&json, &["config", "hosts"]).unwrap().as_array().unwrap();
    assert_eq!(arr[0].as_str(), Some("localhost"));
    assert_eq!(arr[1].as_str(), Some("remote"));
}

#[test]
fn test_to_json_empty_array_from_len_metadata() {
    let mut values = ConfigValues::empty();
    values.insert("name".to_string(), cv(Value::String("test".to_string())));
    values.insert("hosts.__len".to_string(), cv(Value::Integer(0)));

    let json = values.to_json();

    assert_eq!(at(&json, &["name"]).unwrap().as_str(), Some("test"));
    let arr = at(&json, &["hosts"]).unwrap().as_array().unwrap();
    assert!(arr.is_empty());
}

#[test]
fn test_to_json_nested_empty_array() {
    let mut values = ConfigValues::empty();
    values.insert("config.name".to_string(), cv(Value::String("test".to_string())));
    values.insert("config.items.__len".to_string(), cv(Value::Integer(0)));

    let json = values.to_json();

    assert_eq!(at(&json, &["config", "name"]).unwrap().as_str(), Some("test"));
    assert!(at(&json, &["config", "items"]).unwrap().as_array().unwrap().is_empty());
}

#[test]
fn try_to_json_refuses_an_unallocatable_index() {
    let mut values = ConfigValues::empty();
    values.insert(format!("items[{}]", usize::MAX), cv(Value::Integer(1)));
    assert!(!values.fits_tree());
    assert!(values.try_to_json().is_none());
    let mut ok = ConfigValues::empty();
    ok.insert("items[1]".to_string(), cv(Value::Integer(1)));
    let tree = ok.try_to_json().unwrap();
    let arr = at(&tree, &["items"]).unwrap().as_array().unwrap();
    assert_eq!(arr.len(), 2);
    assert!(arr[0].is_null());
}
