use jml_eval::cli::parse_variable;

#[test]
fn parse_variable_splits_at_first_equals() {
    let (name, path) = parse_variable("users=data/users.json").unwrap();
    assert_eq!(name, "users");
    assert_eq!(path, "data/users.json");
    let (name, path) = parse_variable("q=http://x?a=b").unwrap();
    assert_eq!(name, "q");
    assert_eq!(path, "http://x?a=b");
    let (name, path) = parse_variable("=").unwrap();
    assert_eq!(name, "");
    assert_eq!(path, "");
}

#[test]
fn parse_variable_rejects_missing_equals() {
    let err = parse_variable("users").unwrap_err();
    assert_eq!(err, "Invalid variable format: 'users'. Expected format 'name=path'.");
}
