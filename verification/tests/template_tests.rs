use plane_cli::build_path;
use plane_cli::find_byte;
use plane_cli::CliError;

fn bindings(pairs: &[(&str, &str)]) -> Vec<(String, String)> {
    pairs.iter().map(|(k, v)| (String::from(*k), String::from(*v))).collect()
}

#[test]
fn build_path_substitutes_bare_and_typed_tokens() {
    let params = bindings(&[("slug", "acme"), ("project_id", "p1")]);
    let path = build_path("/workspaces/<str:slug>/projects/<project_id>/", &params).expect("build");
    assert_eq!(path, "/workspaces/acme/projects/p1/");
    assert!(!path.contains('<'));
    assert!(!path.contains('>'));
}

#[test]
fn build_path_copies_literal_text() {
    let params = bindings(&[]);
    assert_eq!(build_path("/workspaces/", &params).expect("build"), "/workspaces/");
}

#[test]
fn build_path_rejects_unclosed_token() {
    let params = bindings(&[("slug", "acme")]);
    assert_eq!(build_path("/w/<str:slug", &params), Err(CliError::InvalidTemplate));
}

#[test]
fn build_path_names_missing_value() {
    let params = bindings(&[("slug", "acme")]);
    assert_eq!(
        build_path("/w/<slug>/p/<project_id>", &params),
        Err(CliError::MissingValue(String::from("project_id")))
    );
}

#[test]
fn build_path_first_binding_wins() {
    let params = bindings(&[("slug", "first"), ("slug", "second")]);
    assert_eq!(build_path("/w/<slug>", &params).expect("build"), "/w/first");
}

#[test]
fn find_byte_scans_from_start() {
    let hay = b"abcabc";
    assert_eq!(find_byte(hay, b'b', 0), Some(1));
    assert_eq!(find_byte(hay, b'b', 2), Some(4));
    assert_eq!(find_byte(hay, b'z', 0), None);
    assert_eq!(find_byte(hay, b'a', 6), None);
}
