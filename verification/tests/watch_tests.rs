use premortem::error::{ConfigError, ConfigErrors};
use premortem::watch::{reload_event, watch_step, ConfigEvent, WatchInput, WatchStep};

#[test]
fn test_config_event_clone() {
    let event = ConfigEvent::SourceChanged { path: "/test/config.toml".to_string() };
    let cloned = event.clone();
    match cloned {
        ConfigEvent::SourceChanged { path } => {
            assert_eq!(path, "/test/config.toml".to_string());
        }
        _ => panic!("Expected SourceChanged"),
    }
}

#[test]
fn reload_success_names_the_changed_source() {
    let outcome: Result<u32, ConfigErrors> = Ok(1);
    match reload_event(&outcome, "manual") {
        ConfigEvent::Reloaded { changed_sources } => assert_eq!(changed_sources, vec!["manual"]),
        other => panic!("unexpected {:?}", other),
    }
}

#[test]
fn reload_failure_lists_error_texts() {
    let outcome: Result<u32, ConfigErrors> = Err(ConfigErrors::single(ConfigError::NoSources));
    match reload_event(&outcome, "config.toml") {
        ConfigEvent::ReloadFailed { errors } => {
            assert_eq!(errors, vec!["no configuration sources provided".to_string()])
        }
        other => panic!("unexpected {:?}", other),
    }
}

#[test]
fn watcher_steps() {
    assert!(matches!(watch_step(WatchInput::Changed("a".to_string()), 10, 100), WatchStep::Wait));
    match watch_step(WatchInput::Changed("a".to_string()), 100, 100) {
        WatchStep::Reload(p) => assert_eq!(p, "a"),
        other => panic!("unexpected {:?}", other),
    }
    assert!(matches!(watch_step(WatchInput::Timeout, 0, 100), WatchStep::Wait));
    assert!(matches!(watch_step(WatchInput::Disconnected, 0, 100), WatchStep::Stop));
}
