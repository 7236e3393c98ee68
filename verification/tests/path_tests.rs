use premortem::source::{parse_path, PathSegment};

#[test]
fn test_parse_path_simple() {
    let segments = parse_path("host");
    assert_eq!(segments, vec![PathSegment::Key("host".to_string())]);
}

#[test]
fn test_parse_path_nested() {
    let segments = parse_path("database.host");
    assert_eq!(
        segments,
        vec![
            PathSegment::Key("database".to_string()),
            PathSegment::Key("host".to_string())
        ]
    );
}

#[test]
fn test_parse_path_array_index() {
    let segments = parse_path("hosts[0]");
    assert_eq!(
        segments,
        vec![PathSegment::Key("hosts".to_string()), PathSegment::Index(0)]
    );
}

#[test]
fn test_parse_path_array_with_nested() {
    let segments = parse_path("servers[0].host");
    assert_eq!(
        segments,
        vec![
            PathSegment::Key("servers".to_string()),
            PathSegment::Index(0),
            PathSegment::Key("host".to_string())
        ]
    );
}

#[test]
fn test_parse_path_nested_arrays() {
    let segments = parse_path("matrix[0][1]");
    assert_eq!(
        segments,
        vec![
            PathSegment::Key("matrix".to_string()),
            PathSegment::Index(0),
            PathSegment::Index(1)
        ]
    );
}
