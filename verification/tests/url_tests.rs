use plane_cli::join_url;
use plane_cli::raw_request_url;
use plane_cli::resolve_api_base;
use plane_cli::split_base_url;
use plane_cli::CliError;

#[test]
fn join_url_preserves_trailing_slash() {
    let url = join_url("https://example.com/", "/api/v1/", "users/");
    assert_eq!(url, "https://example.com/api/v1/users/");
}

#[test]
fn split_base_url_variants() {
    let (api, path) = split_base_url("https://example.com", "/api/v1").expect("split");
    assert_eq!(api, "https://example.com");
    assert_eq!(path, "/api/v1");

    let (api, path) = split_base_url("https://example.com/ckrwl", "/api/v1").expect("split");
    assert_eq!(api, "https://example.com");
    assert_eq!(path, "/ckrwl");
}

#[test]
fn join_url_empty_base_path() {
    assert_eq!(join_url("https://example.com", "", "users"), "https://example.com/users");
    assert_eq!(join_url("https://example.com", "/", "users"), "https://example.com/users");
}

#[test]
fn join_url_empty_path() {
    assert_eq!(join_url("https://example.com", "/api/v1", ""), "https://example.com/api/v1");
}

#[test]
fn split_base_url_empty_is_rejected() {
    assert_eq!(split_base_url("   ", "/api/v1"), Err(CliError::EmptyBaseUrl));
    assert_eq!(split_base_url("///", "/api/v1"), Err(CliError::EmptyBaseUrl));
}

#[test]
fn split_base_url_requires_scheme() {
    assert_eq!(split_base_url("example.com", "/api/v1"), Err(CliError::MissingScheme));
}

#[test]
fn split_base_url_trims_whitespace_and_slashes() {
    let (api, path) = split_base_url("  https://example.com/  ", "/api/v1").expect("split");
    assert_eq!(api, "https://example.com");
    assert_eq!(path, "/api/v1");
}

#[test]
fn resolve_api_base_combined_override_wins() {
    let combined = Some(String::from("https://self.example/prefix"));
    let separate = Some(String::from("https://other.example"));
    let sep_path = Some(String::from("/other"));
    let default_path = String::from("/api/v1");
    let (api, path) = resolve_api_base(&combined, &separate, &sep_path, &default_path).expect("resolve");
    assert_eq!(api, "https://self.example");
    assert_eq!(path, "/prefix");
}

#[test]
fn resolve_api_base_defaults() {
    let default_path = String::from("/api/v1");
    let (api, path) = resolve_api_base(&None, &None, &None, &default_path).expect("resolve");
    assert_eq!(api, "https://api.plane.so");
    assert_eq!(path, "/api/v1");
}

#[test]
fn resolve_api_base_separate_overrides() {
    let default_path = String::from("/api/v1");
    let api_override = Some(String::from("https://other.example"));
    let path_override = Some(String::from("/other"));
    let (api, path) =
        resolve_api_base(&None, &api_override, &path_override, &default_path).expect("resolve");
    assert_eq!(api, "https://other.example");
    assert_eq!(path, "/other");
}

#[test]
fn raw_request_url_shapes() {
    assert_eq!(
        raw_request_url("https://api.plane.so", "/api/v1", "https://elsewhere.example/x"),
        "https://elsewhere.example/x"
    );
    assert_eq!(
        raw_request_url("https://api.plane.so/", "/api/v1", "/healthz"),
        "https://api.plane.so/healthz"
    );
    assert_eq!(
        raw_request_url("https://api.plane.so", "/api/v1", "workspaces"),
        "https://api.plane.so/api/v1/workspaces"
    );
}
