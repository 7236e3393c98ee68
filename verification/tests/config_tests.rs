use premortem::config::{
    collect_loads, trace_loads, deserialize_error, missing_field_name, validated, Config, ConfigBuilder,
};
use premortem::env::{ConfigEnv, MockEnv};
use premortem::error::{ConfigError, ConfigErrors, SourceErrorKind, SourceLocation, Validation};
use premortem::source::{ConfigValues, Source};
use premortem::sources::{Env, Json, Toml};
use premortem::value::{ConfigValue, Value};

struct StaticSource {
    name: String,
    values: Vec<(String, i64)>,
}

impl Source for StaticSource {
    fn load(&self, _env: &dyn ConfigEnv) -> Result<ConfigValues, ConfigErrors> {
        let mut v = ConfigValues::empty();
        for (path, n) in &self.values {
            v.insert(
                path.clone(),
                ConfigValue::new(Value::Integer(*n), SourceLocation::new(self.name.as_str())),
            );
        }
        Ok(v)
    }

    fn name(&self) -> &str {
        &self.name
    }

    fn watch_path(&self) -> Option<String> {
        None
    }
}

struct FailingSource {
    name: String,
}

impl Source for FailingSource {
    fn load(&self, _env: &dyn ConfigEnv) -> Result<ConfigValues, ConfigErrors> {
        Err(ConfigErrors::single(ConfigError::SourceError {
            source_name: self.name.clone(),
            kind: SourceErrorKind::Other { message: "boom".to_string() },
        }))
    }

    fn name(&self) -> &str {
        &self.name
    }

    fn watch_path(&self) -> Option<String> {
        None
    }
}

#[test]
fn config_wraps_its_value() {
    let c = Config::new(5u32);
    assert_eq!(*c.get(), 5);
    assert_eq!(c.into_inner(), 5);
}

#[test]
fn no_sources_is_an_error() {
    let builder: ConfigBuilder<u32> = Config::builder();
    let env = MockEnv::new();
    let errors = builder.load(&env).unwrap_err();
    assert_eq!(errors.len(), 1);
    assert!(matches!(errors.first(), ConfigError::NoSources));
}

#[test]
fn later_sources_override_earlier_ones() {
    let builder: ConfigBuilder<u32> = ConfigBuilder::new()
        .source(StaticSource { name: "base".to_string(), values: vec![("host".to_string(), 1), ("port".to_string(), 8080)] })
        .source(StaticSource { name: "override".to_string(), values: vec![("host".to_string(), 2)] });
    assert_eq!(builder.len(), 2);
    assert_eq!(builder.source_names(), vec!["base".to_string(), "override".to_string()]);
    let env = MockEnv::new();
    let merged = builder.load(&env).unwrap();
    assert_eq!(merged.get("host").unwrap().value, Value::Integer(2));
    assert_eq!(merged.get("host").unwrap().source.source, "override");
    assert_eq!(merged.get("port").unwrap().value, Value::Integer(8080));
}

#[test]
fn errors_of_all_failed_sources_are_gathered() {
    let builder: ConfigBuilder<u32> = ConfigBuilder::new()
        .source(FailingSource { name: "a".to_string() })
        .source(StaticSource { name: "ok".to_string(), values: vec![] })
        .source(FailingSource { name: "b".to_string() });
    let env = MockEnv::new();
    let errors = builder.load(&env).unwrap_err();
    assert_eq!(errors.len(), 2);
    assert_eq!(errors.as_slice()[0].to_display_string(), "a: boom");
    assert_eq!(errors.as_slice()[1].to_display_string(), "b: boom");
}

#[test]
fn collecting_no_loads_reports_no_sources() {
    let errors = collect_loads(vec![]).unwrap_err();
    assert!(matches!(errors.first(), ConfigError::NoSources));
}

#[test]
fn missing_field_names() {
    assert_eq!(
        missing_field_name("missing field `port` at line 1 column 2"),
        Some("port".to_string())
    );
    assert_eq!(missing_field_name("invalid type: `x`"), None);
    assert_eq!(missing_field_name("missing field port"), None);
}

#[test]
fn deserialize_errors() {
    let names = vec!["config.toml".to_string()];
    let e = deserialize_error("missing field `host`", &names, "App");
    match e.first() {
        ConfigError::MissingField { path, searched_sources, source_location } => {
            assert_eq!(path, "host");
            assert_eq!(searched_sources, &names);
            assert!(source_location.is_none());
        }
        other => panic!("unexpected {:?}", other),
    }
    let e = deserialize_error("invalid type", &names, "App");
    match e.first() {
        ConfigError::ParseError { path, source_location, expected_type, actual_value, message } => {
            assert_eq!(path, "(root)");
            assert_eq!(source_location.source, "merged config");
            assert_eq!(expected_type, "App");
            assert_eq!(actual_value, "(complex)");
            assert_eq!(message, "invalid type");
        }
        other => panic!("unexpected {:?}", other),
    }
}

#[test]
fn validation_outcome_decides() {
    assert_eq!(validated(7u8, Validation::Success(())).unwrap().into_inner(), 7);
    let failed = validated(7u8, Validation::Failure(ConfigErrors::single(ConfigError::NoSources)));
    assert!(failed.is_err());
}

#[test]
fn traced_final_values_are_the_merged_ones() {
    let builder: ConfigBuilder<u32> = ConfigBuilder::new()
        .source(StaticSource { name: "base".to_string(), values: vec![("host".to_string(), 1), ("port".to_string(), 8080)] })
        .source(FailingSource { name: "broken".to_string() })
        .source(StaticSource { name: "override".to_string(), values: vec![("host".to_string(), 2)] });
    let env = MockEnv::new();
    let loads = builder.load_each(&env);
    let traces = trace_loads(&loads).build();
    assert_eq!(traces.len(), 2);
    let host = &traces.iter().find(|(p, _)| p == "host").unwrap().1;
    assert_eq!(host.history.len(), 2);
    assert_eq!(host.final_value.value, Value::Integer(2));
    assert_eq!(host.final_value.source.source, "override");
    let port = &traces.iter().find(|(p, _)| p == "port").unwrap().1;
    assert!(!port.was_overridden());
}

#[test]
fn watch_paths_are_the_files_read_in_order() {
    let builder = Config::<u32>::builder()
        .source(Toml::file("base.toml"))
        .source(Env::prefix("APP_"))
        .source(Json::string("{}"))
        .source(Json::file("local.json"));
    assert_eq!(builder.watch_paths(), vec!["base.toml".to_string(), "local.json".to_string()]);
}
