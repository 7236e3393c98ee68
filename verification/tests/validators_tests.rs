use premortem::error::{ConfigError, ConfigValidation, SourceLocation, Validation};
use premortem::validate::validators::{
    dir_check, file_check, parent_check, ParentDir,
    Each, Email, Extension, Length, MaxItems, MaxLength, MinItems, MinLength, Negative, NonEmpty,
    NonEmptyCollection, NonZero, Pattern, Positive, Range, Url,
};
use premortem::validate::{
    combine_results, custom, full_path, location_in_context, validate_field, validate_nested,
    validate_optional_nested, Validate, ValidationContext, Validator, When,
};

#[test]
fn test_unit_validate() {
    let result = ().validate();
    assert!(result.is_success());
}

#[test]
fn test_option_validate_none() {
    let opt: Option<String> = None;
    let result = opt.validate();
    assert!(result.is_success());
}

#[test]
fn test_option_validate_some() {
    let opt = Some("value".to_string());
    let result = opt.validate();
    assert!(result.is_success());
}

#[test]
fn test_vec_validate_empty() {
    let v: Vec<String> = vec![];
    let result = v.validate();
    assert!(result.is_success());
}

#[test]
fn test_vec_validate_with_items() {
    let v = vec!["a".to_string(), "b".to_string()];
    let result = v.validate();
    assert!(result.is_success());
}

#[test]
fn test_primitive_validate() {
    assert!(42i32.validate().is_success());
    assert!(true.validate().is_success());
    assert!("hello".to_string().validate().is_success());
}

struct FailingConfig;

impl Validate for FailingConfig {
    fn validate(&self) -> ConfigValidation<()> {
        Validation::fail_with(ConfigError::ValidationError {
            path: "inner".to_string(),
            source_location: None,
            value: None,
            message: "always fails".to_string(),
        })
    }
}

#[test]
fn test_validate_at_prefixes_path() {
    let config = FailingConfig;
    let result = config.validate_at("outer");
    assert!(result.is_failure());

    if let Validation::Failure(errors) = result {
        assert_eq!(errors.first().path(), Some("outer.inner"));
    }
}

#[test]
fn test_non_empty_success() {
    assert!(NonEmpty.validate("hello", "field").is_success());
}

#[test]
fn test_non_empty_failure() {
    assert!(NonEmpty.validate("", "field").is_failure());
}

#[test]
fn test_min_length_success() {
    assert!(MinLength(3).validate("hello", "field").is_success());
}

#[test]
fn test_min_length_failure() {
    assert!(MinLength(10).validate("hi", "field").is_failure());
}

#[test]
fn test_max_length_success() {
    assert!(MaxLength(10).validate("hello", "field").is_success());
}

#[test]
fn test_max_length_failure() {
    assert!(MaxLength(3).validate("hello", "field").is_failure());
}

#[test]
fn test_length_success() {
    assert!(Length(3..=10).validate("hello", "field").is_success());
}

#[test]
fn test_length_failure_too_short() {
    assert!(Length(5..=10).validate("hi", "field").is_failure());
}

#[test]
fn test_length_failure_too_long() {
    assert!(Length(1..=3).validate("hello", "field").is_failure());
}

#[test]
fn test_pattern_success() {
    assert!(Pattern::new(r"^\d+$").validate("12345", "field").is_success());
}

#[test]
fn test_pattern_failure() {
    assert!(Pattern::new(r"^\d+$").validate("abc", "field").is_failure());
}

#[test]
fn test_email_success() {
    assert!(Email.validate("user@example.com", "email").is_success());
}

#[test]
fn test_email_failure() {
    assert!(Email.validate("not-an-email", "email").is_failure());
}

#[test]
fn test_url_success() {
    assert!(Url.validate("https://example.com", "url").is_success());
}

#[test]
fn test_url_failure() {
    assert!(Url.validate("not-a-url", "url").is_failure());
}

#[test]
fn test_range_success() {
    assert!(Range(1..=100).validate(&50i32, "field").is_success());
}

#[test]
fn test_range_failure_below() {
    assert!(Range(10..=100).validate(&5i32, "field").is_failure());
}

#[test]
fn test_range_failure_above() {
    assert!(Range(1..=10).validate(&50i32, "field").is_failure());
}

#[test]
fn test_positive_success() {
    assert!(Positive.validate(&42i32, "field").is_success());
    assert!(Positive.validate(&1u32, "field").is_success());
}

#[test]
fn test_positive_failure() {
    assert!(Positive.validate(&-1i32, "field").is_failure());
    assert!(Positive.validate(&0i32, "field").is_failure());
    assert!(Positive.validate(&0u32, "field").is_failure());
}

#[test]
fn test_negative_success() {
    assert!(Negative.validate(&-42i32, "field").is_success());
}

#[test]
fn test_negative_failure() {
    assert!(Negative.validate(&42i32, "field").is_failure());
    assert!(Negative.validate(&0i32, "field").is_failure());
}

#[test]
fn test_non_zero_success() {
    assert!(NonZero.validate(&42i32, "field").is_success());
    assert!(NonZero.validate(&-1i32, "field").is_success());
    assert!(NonZero.validate(&1u32, "field").is_success());
}

#[test]
fn test_non_zero_failure() {
    assert!(NonZero.validate(&0i32, "field").is_failure());
    assert!(NonZero.validate(&0u32, "field").is_failure());
}

#[test]
fn test_non_empty_collection_success() {
    let v = vec![1, 2, 3];
    assert!(NonEmptyCollection.validate(&v, "items").is_success());
}

#[test]
fn test_non_empty_collection_failure() {
    let v: Vec<i32> = vec![];
    assert!(NonEmptyCollection.validate(&v, "items").is_failure());
}

#[test]
fn test_min_items_success() {
    let v = vec![1, 2, 3];
    assert!(MinItems(2).validate(&v, "items").is_success());
}

#[test]
fn test_min_items_failure() {
    let v = vec![1];
    assert!(MinItems(3).validate(&v, "items").is_failure());
}

#[test]
fn test_max_items_success() {
    let v = vec![1, 2, 3];
    assert!(MaxItems(5).validate(&v, "items").is_success());
}

#[test]
fn test_max_items_failure() {
    let v = vec![1, 2, 3, 4, 5];
    assert!(MaxItems(3).validate(&v, "items").is_failure());
}

#[test]
fn test_each_success() {
    let v = vec![1, 2, 3];
    assert!(Each(Positive).validate(&v, "items").is_success());
}

#[test]
fn test_each_failure_accumulates_errors() {
    let v = vec![1, -2, -3, 4];
    let result = Each(Positive).validate(&v, "items");
    assert!(result.is_failure());

    if let Validation::Failure(errors) = result {
        assert_eq!(errors.len(), 2);
    }
}

#[test]
fn test_each_empty_collection() {
    let v: Vec<i32> = vec![];
    assert!(Each(Positive).validate(&v, "items").is_success());
}

#[test]
fn test_extension_success() {
    assert!(Extension::new("toml").validate("config.toml", "file").is_success());
}

#[test]
fn test_extension_failure_wrong() {
    assert!(Extension::new("toml").validate("config.json", "file").is_failure());
}

#[test]
fn test_extension_failure_none() {
    assert!(Extension::new("toml").validate("config", "file").is_failure());
}

#[test]
fn test_validate_field_empty_validators() {
    let empty: &[&dyn Validator<str>] = &[];
    assert!(validate_field("value", "field", empty).is_success());
}

#[test]
fn test_validate_field_single_validator() {
    assert!(validate_field("hello", "field", &[&NonEmpty]).is_success());
}

#[test]
fn test_validate_field_multiple_validators_all_pass() {
    assert!(validate_field("hello", "field", &[&NonEmpty, &MinLength(3)]).is_success());
}

#[test]
fn test_validate_field_accumulates_errors() {
    let result = validate_field("", "field", &[&NonEmpty, &MinLength(3)]);
    assert!(result.is_failure());

    if let Validation::Failure(errors) = result {
        assert_eq!(errors.len(), 2);
    }
}

struct InnerConfig {
    value: i32,
}

impl Validate for InnerConfig {
    fn validate(&self) -> ConfigValidation<()> {
        if self.value > 0 {
            Validation::Success(())
        } else {
            Validation::fail_with(ConfigError::ValidationError {
                path: "value".to_string(),
                source_location: None,
                value: Some(self.value.to_string()),
                message: "must be positive".to_string(),
            })
        }
    }
}

#[test]
fn test_validate_nested_success() {
    let inner = InnerConfig { value: 42 };
    assert!(validate_nested(&inner, "config").is_success());
}

#[test]
fn test_validate_nested_failure() {
    let inner = InnerConfig { value: -1 };
    let result = validate_nested(&inner, "config");
    assert!(result.is_failure());

    if let Validation::Failure(errors) = result {
        assert_eq!(errors.first().path(), Some("config.value"));
    }
}

#[test]
fn test_validate_optional_nested_none() {
    let opt: Option<InnerConfig> = None;
    assert!(validate_optional_nested(&opt, "config").is_success());
}

#[test]
fn test_validate_optional_nested_some() {
    let opt = Some(InnerConfig { value: -1 });
    assert!(validate_optional_nested(&opt, "config").is_failure());
}

#[test]
fn test_custom_validator() {
    let even_validator = custom(|value: &i32, path: &str| {
        if value % 2 == 0 {
            Validation::Success(())
        } else {
            Validation::fail_with(ConfigError::ValidationError {
                path: path.to_string(),
                source_location: None,
                value: Some(value.to_string()),
                message: "value must be even".to_string(),
            })
        }
    });

    assert!(even_validator.validate(&4, "num").is_success());
    assert!(even_validator.validate(&3, "num").is_failure());
}

#[test]
fn test_when_condition_true() {
    let validator = When::new(NonEmpty, || true);
    assert!(validator.validate("", "field").is_failure());
}

#[test]
fn test_when_condition_false() {
    let validator = When::new(NonEmpty, || false);
    assert!(validator.validate("", "field").is_success());
}

struct DatabaseConfig {
    host: String,
    port: u16,
    pool_size: u32,
}

impl Validate for DatabaseConfig {
    fn validate(&self) -> ConfigValidation<()> {
        let validations = vec![
            validate_field(&self.host, "host", &[&NonEmpty]),
            validate_field(&self.port, "port", &[&Range(1..=65535)]),
            validate_field(&self.pool_size, "pool_size", &[&Range(1..=100)]),
        ];
        combine_results(validations)
    }
}

#[test]
fn test_database_config_valid() {
    let config = DatabaseConfig { host: "localhost".to_string(), port: 5432, pool_size: 10 };
    assert!(config.validate().is_success());
}

#[test]
fn test_database_config_accumulates_all_errors() {
    let config = DatabaseConfig { host: "".to_string(), port: 0, pool_size: 200 };

    let result = config.validate();
    assert!(result.is_failure());

    if let Validation::Failure(errors) = result {
        assert_eq!(errors.len(), 3);
    }
}

#[test]
fn test_vec_custom_validate() {
    let configs = vec![InnerConfig { value: 1 }, InnerConfig { value: -1 }, InnerConfig { value: -2 }];

    let result = configs.validate();
    assert!(result.is_failure());

    if let Validation::Failure(errors) = result {
        assert_eq!(errors.len(), 2);
        let paths: Vec<_> = errors.iter().filter_map(|e| e.path()).collect();
        assert!(paths.contains(&"[1].value"));
        assert!(paths.contains(&"[2].value"));
    }
}

#[test]
fn test_validation_context_lookup() {
    let locations = vec![
        ("host".to_string(), SourceLocation::new("config.toml").with_line(5)),
        ("port".to_string(), SourceLocation::new("config.toml").with_line(6)),
    ];

    let ctx = ValidationContext::new(locations);

    let host_loc = ctx.location_for("host").unwrap();
    assert_eq!(host_loc.source, "config.toml");
    assert_eq!(host_loc.line, Some(5));

    let port_loc = ctx.location_for("port").unwrap();
    assert_eq!(port_loc.line, Some(6));

    assert!(ctx.location_for("missing").is_none());
}

#[test]
fn nested_prefixes_find_locations() {
    let ctx = ValidationContext::new(vec![
        ("outer.inner.field".to_string(), SourceLocation::new("config.toml").with_line(10)),
        ("server.host".to_string(), SourceLocation::new("config.toml").with_line(3)),
    ]);
    let none: Vec<String> = vec![];
    let outer = vec!["outer".to_string()];
    let both = vec!["outer".to_string(), "inner".to_string()];
    assert_eq!(full_path(&both, "field"), "outer.inner.field");
    assert!(location_in_context(Some(&ctx), &none, "field").is_none());
    assert!(location_in_context(Some(&ctx), &outer, "field").is_none());
    assert_eq!(location_in_context(Some(&ctx), &both, "field").unwrap().line, Some(10));
    let server = vec!["server".to_string()];
    assert_eq!(location_in_context(Some(&ctx), &server, "host").unwrap().line, Some(3));
    assert!(location_in_context(None, &server, "host").is_none());
}

#[test]
fn later_location_for_the_same_path_wins() {
    let ctx = ValidationContext::new(vec![
        ("host".to_string(), SourceLocation::new("a.toml")),
        ("host".to_string(), SourceLocation::new("b.toml")),
    ]);
    assert_eq!(ctx.location_for("host").unwrap().source, "b.toml");
}

#[test]
fn failure_messages_of_validators() {
    match MinLength(10).validate("hi", "field") {
        Validation::Failure(errors) => match errors.first() {
            ConfigError::ValidationError { path, value, .. } => {
                assert_eq!(path, "field");
                assert_eq!(value.as_deref(), Some("hi"));
            }
            other => panic!("unexpected {:?}", other),
        },
        Validation::Success(_) => panic!("expected failure"),
    }
}

#[test]
fn file_system_check_outcomes() {
    assert!(file_check("f", "a.toml".to_string(), true).is_success());
    match file_check("f", "a.toml".to_string(), false) {
        Validation::Failure(errors) => match errors.first() {
            ConfigError::ValidationError { message, value, .. } => {
                assert_eq!(message, "file does not exist");
                assert_eq!(value.as_deref(), Some("a.toml"));
            }
            other => panic!("unexpected {:?}", other),
        },
        Validation::Success(_) => panic!("expected failure"),
    }
    assert!(dir_check("d", "x".to_string(), false).is_failure());
    assert!(parent_check("p", "out.log".to_string(), ParentDir::Current).is_success());
    assert!(parent_check("p", "/a/b".to_string(), ParentDir::Exists).is_success());
    assert!(parent_check("p", "/a/b".to_string(), ParentDir::Missing).is_failure());
    match parent_check("p", "/".to_string(), ParentDir::NoParent) {
        Validation::Failure(errors) => match errors.first() {
            ConfigError::ValidationError { message, .. } => assert_eq!(message, "path has no parent directory"),
            other => panic!("unexpected {:?}", other),
        },
        Validation::Success(_) => panic!("expected failure"),
    }
}

#[test]
fn wide_integers_are_checked_too() {
    assert!(Positive.validate(&1i128, "n").is_success());
    assert!(Negative.validate(&i128::MIN, "n").is_success());
    assert!(NonZero.validate(&0u128, "n").is_failure());
    let big = Range(0u128..=10).validate(&u128::MAX, "n");
    match big {
        ConfigValidation::Failure(errors) => match errors.first() {
            ConfigError::ValidationError { message, .. } => assert_eq!(
                message,
                "value 340282366920938463463374607431768211455 is not in range 0..=10"
            ),
            other => panic!("unexpected error {:?}", other),
        },
        ConfigValidation::Success(()) => panic!("expected a failure"),
    }
    let low = Range(-5i128..=5).validate(&i128::MIN, "n");
    match low {
        ConfigValidation::Failure(errors) => match errors.first() {
            ConfigError::ValidationError { message, .. } => assert_eq!(
                message,
                "value -170141183460469231731687303715884105728 is not in range -5..=5"
            ),
            other => panic!("unexpected error {:?}", other),
        },
        ConfigValidation::Success(()) => panic!("expected a failure"),
    }
}
