use premortem::config::Config;
use premortem::error::SourceLocation;
use premortem::trace::{TraceBuilder, TracedConfig, TracedValue, ValueTrace};
use premortem::value::Value;

fn tv(v: Value, src: &str) -> TracedValue {
    TracedValue::new(v, SourceLocation::new(src), false)
}

#[test]
fn test_traced_value_new() {
    let tv = TracedValue::new(
        Value::String("localhost".to_string()),
        SourceLocation::new("config.toml"),
        false,
    );

    assert_eq!(tv.value.as_str(), Some("localhost"));
    assert_eq!(tv.source.source, "config.toml");
    assert!(!tv.is_final);
}

#[test]
fn test_value_trace_new() {
    let history = vec![
        tv(Value::String("default".to_string()), "defaults"),
        tv(Value::String("override".to_string()), "config.toml"),
    ];

    let trace = ValueTrace::new(history).unwrap();

    assert_eq!(trace.final_value.value.as_str(), Some("override"));
    assert!(trace.final_value.is_final);
    assert!(trace.was_overridden());
    assert_eq!(trace.source_count(), 2);
}

#[test]
fn test_value_trace_single_source() {
    let history = vec![tv(Value::Integer(8080), "config.toml")];

    let trace = ValueTrace::new(history).unwrap();

    assert!(!trace.was_overridden());
    assert_eq!(trace.source_count(), 1);
}

#[test]
fn test_value_trace_empty_history() {
    let trace = ValueTrace::new(vec![]);
    assert!(trace.is_none());
}

#[test]
fn test_traced_config_basic() {
    #[allow(dead_code)]
    #[derive(Debug)]
    struct TestConfig {
        host: String,
        port: i64,
    }

    let config = Config::new(TestConfig { host: "localhost".to_string(), port: 8080 });

    let traces = vec![(
        "host".to_string(),
        ValueTrace::new(vec![tv(Value::String("localhost".to_string()), "config.toml")]).unwrap(),
    )];

    let traced = TracedConfig::new(config, traces);

    assert_eq!(traced.value().host, "localhost");
    assert_eq!(traced.trace_count(), 1);
    assert!(traced.trace("host").is_some());
    assert!(traced.trace("nonexistent").is_none());
}

#[test]
fn test_traced_config_was_overridden() {
    #[allow(dead_code)]
    #[derive(Debug)]
    struct TestConfig {
        value: String,
    }

    let config = Config::new(TestConfig { value: "final".to_string() });

    let traces = vec![
        (
            "single".to_string(),
            ValueTrace::new(vec![tv(Value::String("only".to_string()), "defaults")]).unwrap(),
        ),
        (
            "overridden".to_string(),
            ValueTrace::new(vec![
                tv(Value::String("first".to_string()), "defaults"),
                tv(Value::String("second".to_string()), "config.toml"),
            ])
            .unwrap(),
        ),
    ];

    let traced = TracedConfig::new(config, traces);

    assert!(!traced.was_overridden("single"));
    assert!(traced.was_overridden("overridden"));
    assert!(!traced.was_overridden("nonexistent"));
}

#[test]
fn test_traced_config_overridden_paths() {
    #[derive(Debug)]
    struct TestConfig;

    let config = Config::new(TestConfig);

    let traces = vec![
        ("a".to_string(), ValueTrace::new(vec![tv(Value::Integer(1), "defaults")]).unwrap()),
        (
            "b".to_string(),
            ValueTrace::new(vec![tv(Value::Integer(1), "defaults"), tv(Value::Integer(2), "file")])
                .unwrap(),
        ),
        (
            "c".to_string(),
            ValueTrace::new(vec![
                tv(Value::Integer(1), "defaults"),
                tv(Value::Integer(2), "file"),
                tv(Value::Integer(3), "env"),
            ])
            .unwrap(),
        ),
    ];

    let traced = TracedConfig::new(config, traces);

    let overridden = traced.overridden_paths();
    assert_eq!(overridden.len(), 2);
    assert!(overridden.contains(&"b".to_string()));
    assert!(overridden.contains(&"c".to_string()));
}

#[test]
fn test_trace_builder() {
    let mut builder = TraceBuilder::new();

    builder.add_value("host".to_string(), Value::String("localhost".to_string()), SourceLocation::new("defaults"));
    builder.add_value("host".to_string(), Value::String("prod".to_string()), SourceLocation::new("env"));
    builder.add_value("port".to_string(), Value::Integer(8080), SourceLocation::new("defaults"));

    let traces = builder.build();

    assert_eq!(traces.len(), 2);
    let get = |k: &str| traces.iter().find(|(p, _)| p == k).map(|(_, t)| t);
    assert!(get("host").unwrap().was_overridden());
    assert!(!get("port").unwrap().was_overridden());
    assert_eq!(get("host").unwrap().final_value.value.as_str(), Some("prod"));
}

#[test]
fn test_traced_config_deref() {
    #[derive(Debug)]
    struct TestConfig {
        value: i32,
    }

    let config = Config::new(TestConfig { value: 42 });
    let traced = TracedConfig::new(config, vec![]);

    assert_eq!(traced.value().value, 42);
    assert_eq!(traced.config().get().value, 42);
}

#[test]
fn test_traced_config_into_inner() {
    #[derive(Debug, PartialEq)]
    struct TestConfig {
        value: i32,
    }

    let config = Config::new(TestConfig { value: 42 });
    let traced = TracedConfig::new(config, vec![]);

    let inner = traced.into_inner();
    assert_eq!(inner, TestConfig { value: 42 });
}

#[test]
fn test_traced_config_into_config() {
    #[derive(Debug)]
    struct TestConfig {
        value: i32,
    }

    let config = Config::new(TestConfig { value: 42 });
    let traced = TracedConfig::new(config, vec![]);

    let config = traced.into_config();
    assert_eq!(config.get().value, 42);
}

#[test]
fn test_traced_config_paths() {
    #[derive(Debug)]
    struct TestConfig;

    let config = Config::new(TestConfig);

    let traces = vec![
        ("a".to_string(), ValueTrace::new(vec![tv(Value::Integer(1), "test")]).unwrap()),
        ("b".to_string(), ValueTrace::new(vec![tv(Value::Integer(2), "test")]).unwrap()),
    ];

    let traced = TracedConfig::new(config, traces);

    let paths = traced.paths();
    assert_eq!(paths.len(), 2);
    assert!(paths.contains(&"a".to_string()));
    assert!(paths.contains(&"b".to_string()));
}

#[test]
fn trace_text_lists_the_history_when_overridden() {
    let trace = ValueTrace::new(vec![
        tv(Value::Integer(1), "defaults"),
        tv(Value::Integer(2), "config.toml"),
    ])
    .unwrap();
    let text = trace.to_display_string_with("Integer(2)", &vec!["Integer(1)".to_string(), "Integer(2)".to_string()]);
    assert_eq!(
        text,
        "Final: Integer(2) (from config.toml)\nHistory:\n    [defaults] Integer(1)\n  \u{2192} [config.toml] Integer(2)\n"
    );
    let single = ValueTrace::new(vec![tv(Value::Bool(true), "env")]).unwrap();
    assert_eq!(
        single.to_display_string_with("Bool(true)", &vec!["Bool(true)".to_string()]),
        "Final: Bool(true) (from env)\n"
    );
}

#[test]
fn trace_report_marks_overridden_values() {
    let mut builder = TraceBuilder::new();
    builder.add_value("port".to_string(), Value::Integer(1), SourceLocation::new("defaults"));
    builder.add_value("port".to_string(), Value::Integer(2), SourceLocation::new("env"));
    let traced = TracedConfig::new(Config::new(0u8), builder.build());
    let report = traced.trace_report_with(&vec![(
        "Integer(2)".to_string(),
        vec!["Integer(1)".to_string(), "Integer(2)".to_string()],
    )]);
    assert_eq!(
        report,
        "port = Integer(2)\n  \u{25cb} [defaults] Integer(1) <- overridden\n  \u{2713} [env] Integer(2)\n\n"
    );
}
