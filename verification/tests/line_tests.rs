use premortem::sources::line_from_offset;

#[test]
fn test_line_from_offset_first_line() {
    let content = "first line\nsecond line\nthird line";
    assert_eq!(line_from_offset(content, 0), 1);
    assert_eq!(line_from_offset(content, 5), 1);
}

#[test]
fn test_line_from_offset_second_line() {
    let content = "first line\nsecond line\nthird line";
    assert_eq!(line_from_offset(content, 11), 2);
    assert_eq!(line_from_offset(content, 15), 2);
}

#[test]
fn test_line_from_offset_third_line() {
    let content = "first line\nsecond line\nthird line";
    assert_eq!(line_from_offset(content, 23), 3);
}

#[test]
fn test_line_from_offset_empty_content() {
    let content = "";
    assert_eq!(line_from_offset(content, 0), 1);
}

#[test]
fn test_line_from_offset_beyond_content() {
    let content = "short";
    assert_eq!(line_from_offset(content, 100), 1);
}
