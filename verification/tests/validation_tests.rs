use premortem::error::{ConfigError, ConfigErrors, ConfigValidation, Validation};
use premortem::validate::validators::NonEmpty;
use premortem::validate::Validator;
use premortem::value::Value;

#[test]
fn test_prelude_validation_types_available() {
    let _: ConfigValidation<()> = Validation::Success(());
    let _: ConfigValidation<()> = Validation::Failure(ConfigErrors::single(ConfigError::NoSources));
}

#[test]
fn test_reexports() {
    let _: ConfigValidation<()> = Validation::Success(());
}

#[test]
fn test_prelude_error_types_available() {
    let err = ConfigError::NoSources;
    let errors = ConfigErrors::single(err);
    assert_eq!(errors.len(), 1);
}

#[test]
fn test_prelude_semigroup_combine() {
    let e1 = ConfigErrors::single(ConfigError::NoSources);
    let e2 = ConfigErrors::single(ConfigError::MissingField {
        path: "host".to_string(),
        source_location: None,
        searched_sources: vec![],
    });
    let combined = e1.combine(e2);
    assert_eq!(combined.len(), 2);
}

#[test]
fn test_prelude_validation_all_vec() {
    let v1: ConfigValidation<i32> = Validation::Success(1);
    let v2: ConfigValidation<i32> = Validation::Success(2);

    let result = Validation::all_vec(vec![v1, v2]);
    assert!(result.is_success());
}

#[test]
fn test_prelude_validation_all_vec_accumulates_errors() {
    let v1: ConfigValidation<i32> = Validation::Failure(ConfigErrors::single(ConfigError::NoSources));
    let v2: ConfigValidation<i32> = Validation::Failure(ConfigErrors::single(ConfigError::MissingField {
        path: "host".to_string(),
        source_location: None,
        searched_sources: vec![],
    }));

    let result = Validation::all_vec(vec![v1, v2]);
    assert!(result.is_failure());

    if let Validation::Failure(errors) = result {
        assert_eq!(errors.len(), 2);
    }
}

#[test]
fn test_prelude_config_validation_ext() {
    let result: ConfigValidation<i32> = ConfigValidation::fail_with(ConfigError::NoSources);
    assert!(result.is_failure());
}

#[test]
fn test_prelude_value_types_available() {
    let value = Value::String("test".to_string());
    assert_eq!(value.as_str(), Some("test"));
}

#[test]
fn test_prelude_validators_module() {
    let validator = NonEmpty;
    let result = <NonEmpty as Validator<str>>::validate(&validator, "hello", "field");
    assert!(result.is_success());
}

#[test]
fn all_vec_keeps_successes_in_order() {
    let result = Validation::all_vec(vec![Validation::<i32>::Success(1), Validation::Success(2)]);
    match result {
        Validation::Success(v) => assert_eq!(v, vec![1, 2]),
        Validation::Failure(_) => panic!("expected success"),
    }
}
