use minismtp::extract_email;

#[test]
fn bare_address_in_brackets() {
    assert_eq!(extract_email("<x@y>"), Some("x@y"));
}

#[test]
fn prefix_before_brackets_is_ignored() {
    assert_eq!(extract_email("FROM:<a@b.example>"), Some("a@b.example"));
    assert_eq!(extract_email("TO:<b@y>"), Some("b@y"));
}

#[test]
fn no_address() {
    assert_eq!(extract_email("garbage"), None);
    assert_eq!(extract_email("a@b"), None);
    assert_eq!(extract_email("<>"), None);
    assert_eq!(extract_email("<ab>"), None);
    assert_eq!(extract_email("a@b>"), None);
    assert_eq!(extract_email(">a@b<"), None);
    assert_eq!(extract_email("<a@b"), None);
    assert_eq!(extract_email(""), None);
}

#[test]
fn span_ends_at_first_close_and_starts_after_last_open() {
    assert_eq!(extract_email("<a@b<c>"), None);
    assert_eq!(extract_email("<a@<b>"), None);
    assert_eq!(extract_email("<a@b<c@d>"), Some("c@d"));
    assert_eq!(extract_email("<x<y@z>w>"), Some("y@z"));
}

#[test]
fn non_ascii_address_is_kept_verbatim() {
    assert_eq!(extract_email("FROM:<jürgen@exämple.de>"), Some("jürgen@exämple.de"));
}
