use premortem::source::Source;
use premortem::sources::env_source::{suffix_to_path, Env};

#[test]
fn test_env_name() {
    let source = Env::prefix("APP_");
    assert_eq!(source.name(), "environment");
}

#[test]
fn test_suffix_to_path_simple() {
    assert_eq!(suffix_to_path("HOST", "_"), "host");
    assert_eq!(suffix_to_path("DATABASE_HOST", "_"), "database.host");
    assert_eq!(suffix_to_path("DATABASE_POOL_SIZE", "_"), "database.pool.size");
}

#[test]
fn test_suffix_to_path_custom_separator() {
    assert_eq!(suffix_to_path("DATABASE__HOST", "__"), "database.host");
}

#[test]
fn test_suffix_to_path_array_index() {
    assert_eq!(suffix_to_path("SERVERS_0_HOST", "_"), "servers[0].host");
    assert_eq!(suffix_to_path("ITEMS_1", "_"), "items[1]");
}
