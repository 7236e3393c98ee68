use premortem::error::{ConfigError, ConfigErrors, ConfigValidation, SourceLocation, Validation};
use premortem::validate::compose_struct_validation;
use premortem::source::{merge_config_values, ConfigValues};
use premortem::value::{ConfigValue, Value};

fn values(entries: &[(&str, i64, &str)]) -> ConfigValues {
    let mut vals = ConfigValues::empty();
    for (path, n, source) in entries {
        vals.insert(path.to_string(), ConfigValue::new(Value::Integer(*n), SourceLocation::new(*source)));
    }
    vals
}

fn int_at(vals: &ConfigValues, path: &str) -> Option<(i64, String)> {
    vals.get(path).map(|cv| match &cv.value {
        Value::Integer(n) => (*n, cv.source.source.clone()),
        _ => panic!("not an integer"),
    })
}

fn sorted_paths(vals: &ConfigValues) -> Vec<String> {
    let mut p = vals.paths();
    p.sort();
    p
}

fn validation(path: &str, message: &str) -> ConfigError {
    ConfigError::ValidationError {
        path: path.to_string(),
        source_location: None,
        value: None,
        message: message.to_string(),
    }
}

#[test]
fn merge_keeps_the_later_value_and_the_earlier_rest() {
    let a = values(&[("port", 1, "a"), ("host", 2, "a")]);
    let b = values(&[("port", 3, "b")]);
    let merged = merge_config_values(vec![a, b]);
    assert_eq!(int_at(&merged, "port"), Some((3, "b".to_string())));
    assert_eq!(int_at(&merged, "host"), Some((2, "a".to_string())));
}

#[test]
fn merge_paths_are_the_union() {
    let a = values(&[("x", 1, "a"), ("y", 2, "a")]);
    let b = values(&[("y", 3, "b"), ("z", 4, "b")]);
    let merged = merge_config_values(vec![a, b]);
    assert_eq!(sorted_paths(&merged), vec!["x".to_string(), "y".to_string(), "z".to_string()]);
}

#[test]
fn merge_with_empty_changes_nothing() {
    let a = || values(&[("x", 1, "a"), ("y", 2, "a")]);
    let left = merge_config_values(vec![ConfigValues::empty(), a()]);
    let right = merge_config_values(vec![a(), ConfigValues::empty()]);
    for merged in [&left, &right] {
        assert_eq!(sorted_paths(merged), vec!["x".to_string(), "y".to_string()]);
        assert_eq!(int_at(merged, "x"), Some((1, "a".to_string())));
        assert_eq!(int_at(merged, "y"), Some((2, "a".to_string())));
    }
}

#[test]
fn merge_grouping_does_not_matter() {
    let a = || values(&[("x", 1, "a"), ("y", 1, "a")]);
    let b = || values(&[("y", 2, "b"), ("z", 2, "b")]);
    let c = || values(&[("z", 3, "c"), ("w", 3, "c")]);
    let ab = merge_config_values(vec![a(), b()]);
    let left = merge_config_values(vec![ab, c()]);
    let bc = merge_config_values(vec![b(), c()]);
    let right = merge_config_values(vec![a(), bc]);
    let all = merge_config_values(vec![a(), b(), c()]);
    for merged in [&left, &right, &all] {
        assert_eq!(sorted_paths(merged), vec!["w", "x", "y", "z"]);
        assert_eq!(int_at(merged, "x"), Some((1, "a".to_string())));
        assert_eq!(int_at(merged, "y"), Some((2, "b".to_string())));
        assert_eq!(int_at(merged, "z"), Some((3, "c".to_string())));
        assert_eq!(int_at(merged, "w"), Some((3, "c".to_string())));
    }
}

#[test]
fn combining_errors_is_associative_and_keeps_all() {
    let a = || ConfigErrors::single(validation("a", "first"));
    let b = || ConfigErrors::from_vec(vec![validation("b1", "second"), validation("b2", "third")]).unwrap();
    let c = || ConfigErrors::single(ConfigError::NoSources);
    let left = a().combine(b()).combine(c());
    let right = a().combine(b().combine(c()));
    assert_eq!(left.len(), 4);
    let left_paths: Vec<Option<&str>> = left.iter().map(|e| e.path()).collect();
    let right_paths: Vec<Option<&str>> = right.iter().map(|e| e.path()).collect();
    assert_eq!(left_paths, vec![Some("a"), Some("b1"), Some("b2"), None]);
    assert_eq!(left_paths, right_paths);
}

#[test]
fn prefixed_paths_start_with_the_prefix() {
    let prefixed = |path: &str| validation(path, "m").with_path_prefix("database");
    assert_eq!(prefixed("host").path(), Some("database.host"));
    assert_eq!(prefixed("[0].name").path(), Some("database[0].name"));
    assert_eq!(prefixed("").path(), Some("database"));
    let none = ConfigError::NoSources.with_path_prefix("database");
    assert_eq!(none.path(), None);
}

#[test]
fn context_goes_before_the_message() {
    let e = validation("port", "must be positive").with_context("server");
    match e {
        ConfigError::ValidationError { message, path, .. } => {
            assert_eq!(message, "server -> must be positive");
            assert_eq!(path, "port");
        }
        _ => panic!("expected a validation error"),
    }
}

#[test]
fn merging_many_sources_takes_the_last_that_has_each_path() {
    let merged = merge_config_values(vec![
        values(&[("a", 1, "s0"), ("b", 1, "s0")]),
        ConfigValues::empty(),
        values(&[("b", 2, "s2"), ("c", 2, "s2")]),
        values(&[("c", 3, "s3")]),
        values(&[("d", 4, "s4")]),
    ]);
    assert_eq!(sorted_paths(&merged), vec!["a", "b", "c", "d"]);
    assert_eq!(int_at(&merged, "a"), Some((1, "s0".to_string())));
    assert_eq!(int_at(&merged, "b"), Some((2, "s2".to_string())));
    assert_eq!(int_at(&merged, "c"), Some((3, "s3".to_string())));
    assert_eq!(int_at(&merged, "d"), Some((4, "s4".to_string())));
    assert!(merge_config_values(vec![]).is_empty());
}

#[test]
fn struct_check_runs_only_after_every_field_passes() {
    let calls = std::cell::Cell::new(0);
    let struct_check = || {
        calls.set(calls.get() + 1);
        Validation::fail_with(validation("", "struct check failed"))
    };
    let failing: Vec<ConfigValidation<()>> = vec![
        Validation::fail_with(validation("a", "bad a")),
        Validation::Success(()),
        Validation::fail_with(validation("c", "bad c")),
    ];
    match compose_struct_validation(failing, Some(&struct_check)) {
        Validation::Failure(errors) => {
            let paths: Vec<Option<&str>> = errors.iter().map(|e| e.path()).collect();
            assert_eq!(paths, vec![Some("a"), Some("c")]);
        }
        Validation::Success(()) => panic!("expected the field errors"),
    }
    assert_eq!(calls.get(), 0);
    let passing: Vec<ConfigValidation<()>> = vec![Validation::Success(()), Validation::Success(())];
    match compose_struct_validation(passing, Some(&struct_check)) {
        Validation::Failure(errors) => assert_eq!(errors.len(), 1),
        Validation::Success(()) => panic!("expected the struct check's error"),
    }
    assert_eq!(calls.get(), 1);
    let none: Option<fn() -> ConfigValidation<()>> = None;
    assert!(compose_struct_validation(vec![Validation::Success(())], none).is_success());
}
