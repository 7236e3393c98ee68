use premortem::env::MockEnv;
use premortem::source::Source;
use premortem::sources::defaults::defaults_values;
use premortem::sources::PartialDefaults;
use premortem::value::Value;

#[test]
fn test_partial_defaults_basic() {
    let env = MockEnv::new();
    let source = PartialDefaults::new()
        .set("server.port", 8080i64)
        .set("database.pool_size", 10i64);

    let values = source.load(&env).expect("should load successfully");

    assert_eq!(values.get("server.port").map(|v| v.value.as_integer()), Some(Some(8080)));
    assert_eq!(values.get("database.pool_size").map(|v| v.value.as_integer()), Some(Some(10)));
}

#[test]
fn test_partial_defaults_various_types() {
    let env = MockEnv::new();
    let source = PartialDefaults::new()
        .set("string_val", "hello")
        .set("int_val", 42i64)
        .set("float_val", Value::Float("2.72".to_string()))
        .set("bool_val", true);

    let values = source.load(&env).expect("should load successfully");

    assert_eq!(values.get("string_val").map(|v| v.value.as_str()), Some(Some("hello")));
    assert_eq!(values.get("int_val").map(|v| v.value.as_integer()), Some(Some(42)));
    assert_eq!(
        values
            .get("float_val")
            .map(|v| v.value.as_float_text().and_then(|t| t.parse::<f64>().ok())),
        Some(Some(2.72))
    );
    assert_eq!(values.get("bool_val").map(|v| v.value.as_bool()), Some(Some(true)));
}

#[test]
fn test_partial_defaults_set_many() {
    let env = MockEnv::new();
    let defaults = vec![
        ("server.port", Value::Integer(8080)),
        ("server.host", Value::String("localhost".to_string())),
        ("debug", Value::Bool(true)),
    ];

    let source = PartialDefaults::new().set_many(defaults);
    let values = source.load(&env).expect("should load successfully");

    assert_eq!(values.get("server.port").map(|v| v.value.as_integer()), Some(Some(8080)));
    assert_eq!(values.get("server.host").map(|v| v.value.as_str()), Some(Some("localhost")));
    assert_eq!(values.get("debug").map(|v| v.value.as_bool()), Some(Some(true)));
}

#[test]
fn test_partial_defaults_source_location() {
    let env = MockEnv::new();
    let source = PartialDefaults::new().set("server.port", 8080i64);

    let values = source.load(&env).expect("should load successfully");

    let port_value = values.get("server.port").expect("should exist");
    assert_eq!(port_value.source.source, "defaults:server.port");
}

#[test]
fn test_defaults_name() {
    let partial = PartialDefaults::new().set("key", "value");
    assert_eq!(partial.name(), "defaults");
}

#[test]
fn test_partial_defaults_empty() {
    let env = MockEnv::new();
    let source = PartialDefaults::new();
    let values = source.load(&env).expect("should load successfully");

    assert!(values.is_empty());
}

#[test]
fn serialized_defaults_are_flattened() {
    let tree = Value::Table(vec![
        ("host".to_string(), Value::String("localhost".to_string())),
        ("ports".to_string(), Value::Array(vec![Value::Integer(1), Value::Integer(2)])),
    ]);
    let values = defaults_values(Ok(tree), "defaults").unwrap();
    assert_eq!(values.get("host").map(|v| v.value.as_str()), Some(Some("localhost")));
    assert_eq!(values.get("ports[1]").map(|v| v.value.as_integer()), Some(Some(2)));
    assert_eq!(values.get("ports.__len").map(|v| v.value.as_integer()), Some(Some(2)));
    assert_eq!(values.get("host").unwrap().source.source, "defaults");
}

#[test]
fn serialization_failure_is_a_source_error() {
    let errors = defaults_values(Err("boom".to_string()), "defaults").unwrap_err();
    assert_eq!(errors.len(), 1);
}
