use premortem::pretty::{is_sensitive_path, ColorOption, PrettyPrintOptions};

#[test]
fn test_is_sensitive_path() {
    assert!(is_sensitive_path("password"));
    assert!(is_sensitive_path("database.password"));
    assert!(is_sensitive_path("api_key"));
    assert!(is_sensitive_path("API_KEY"));
    assert!(is_sensitive_path("secret_token"));
    assert!(is_sensitive_path("aws_secret_access_key"));
    assert!(is_sensitive_path("credential"));

    assert!(!is_sensitive_path("host"));
    assert!(!is_sensitive_path("port"));
    assert!(!is_sensitive_path("timeout"));
}

#[test]
fn test_pretty_print_options_builder() {
    let options = PrettyPrintOptions::default()
        .with_color(ColorOption::Always)
        .with_grouping(false)
        .with_suggestions(false)
        .with_max_errors(Some(10))
        .with_redaction(false);

    assert_eq!(options.color, ColorOption::Always);
    assert!(!options.group_by_source);
    assert!(!options.show_suggestions);
    assert_eq!(options.max_errors, Some(10));
    assert!(!options.redact_sensitive);
}

#[test]
fn pretty_print_options_defaults() {
    let options = PrettyPrintOptions::default();
    assert_eq!(options.color, ColorOption::Auto);
    assert!(options.group_by_source);
    assert!(options.show_suggestions);
    assert_eq!(options.max_errors, Some(20));
    assert!(options.redact_sensitive);
}
