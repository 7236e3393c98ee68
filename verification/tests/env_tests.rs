use premortem::env::{ConfigEnv, MockEnv, ReadErrorKind};

#[test]
fn test_mock_env_files() {
    let env = MockEnv::new()
        .with_file("config.toml", "host = \"localhost\"")
        .with_file("other.toml", "port = 8080");

    assert!(env.file_exists("config.toml"));
    assert!(env.file_exists("other.toml"));
    assert!(!env.file_exists("missing.toml"));

    let content = env.read_file("config.toml").unwrap();
    assert_eq!(content, "host = \"localhost\"");
}

#[test]
fn test_mock_env_missing_file() {
    let env = MockEnv::new();

    let result = env.read_file("missing.toml");
    assert!(result.is_err());
    assert_eq!(result.unwrap_err().kind(), ReadErrorKind::NotFound);
}

#[test]
fn test_mock_env_permission_denied() {
    let env = MockEnv::new().with_unreadable_file("secret.toml");

    let result = env.read_file("secret.toml");
    assert!(result.is_err());
    assert_eq!(result.unwrap_err().kind(), ReadErrorKind::PermissionDenied);
}

#[test]
fn test_mock_env_vars() {
    let env = MockEnv::new()
        .with_env("APP_HOST", "localhost")
        .with_env("APP_PORT", "8080")
        .with_env("OTHER_VAR", "value");

    assert_eq!(env.get_env("APP_HOST"), Some("localhost".to_string()));
    assert_eq!(env.get_env("APP_PORT"), Some("8080".to_string()));
    assert_eq!(env.get_env("MISSING"), None);

    let app_vars = env.env_vars_with_prefix("APP_");
    assert_eq!(app_vars.len(), 2);

    let all_vars = env.all_env_vars();
    assert_eq!(all_vars.len(), 3);
}

#[test]
fn test_mock_env_mutations() {
    let mut env = MockEnv::new()
        .with_file("config.toml", "original")
        .with_env("VAR", "original");

    // Mutate file
    env.set_file("config.toml", "modified");
    assert_eq!(env.read_file("config.toml").unwrap(), "modified");

    // Mutate env var
    env.set_env("VAR", "modified");
    assert_eq!(env.get_env("VAR"), Some("modified".to_string()));

    // Remove file
    env.remove_file("config.toml");
    assert!(!env.file_exists("config.toml"));

    // Remove env var
    env.remove_env("VAR");
    assert_eq!(env.get_env("VAR"), None);
}

#[test]
fn test_mock_env_directories() {
    let env = MockEnv::new()
        .with_directory("/etc/myapp")
        .with_file("/etc/myapp/config.toml", "content");

    assert!(env.is_directory("/etc/myapp"));
    assert!(!env.is_directory("/etc/myapp/config.toml"));
    assert!(!env.is_directory("/other"));
}

#[test]
fn mock_env_read_error_messages() {
    let env = MockEnv::new().with_unreadable_file("secret.toml");
    assert_eq!(
        env.read_file("secret.toml").unwrap_err().to_display_string(),
        "mock permission denied: secret.toml"
    );
    assert_eq!(
        env.read_file("nope.toml").unwrap_err().to_display_string(),
        "mock file not found: nope.toml"
    );
}

#[test]
fn mock_env_prefix_listing_is_exact() {
    let env = MockEnv::new()
        .with_env("APP_HOST", "h")
        .with_env("APPX", "x")
        .with_env("OTHER", "o");
    let vars = env.env_vars_with_prefix("APP_");
    assert_eq!(vars, vec![("APP_HOST".to_string(), "h".to_string())]);
}
