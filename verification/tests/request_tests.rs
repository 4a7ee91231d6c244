use plane_cli::build_path;
use plane_cli::check_deprecation;
use plane_cli::collect_path_params;
use plane_cli::ensure_success;
use plane_cli::is_workspace_param;
use plane_cli::parse_body;
use plane_cli::parse_body_text;
use plane_cli::resolve_body_source;
use plane_cli::BodySource;
use plane_cli::CliError;
use plane_cli::Param;
use plane_cli::ParsedBody;

fn param(name: &str, flag: &str) -> Param {
    Param { name: String::from(name), flag: String::from(flag) }
}

#[test]
fn workspace_param_detection() {
    assert!(is_workspace_param("slug"));
    assert!(is_workspace_param("workspace"));
    assert!(is_workspace_param("workspace_slug"));
    assert!(is_workspace_param("workspaceSlug"));
    assert!(!is_workspace_param("project_id"));
}

#[test]
fn workspace_param_is_case_sensitive() {
    assert!(!is_workspace_param("Slug"));
    assert!(!is_workspace_param("WORKSPACE"));
    assert!(!is_workspace_param(""));
}

#[test]
fn collect_path_params_prefers_cli_value() {
    let params = vec![param("slug", "slug")];
    let cli_values = vec![Some(String::from("explicit"))];
    let workspace = Some(String::from("fallback"));
    let got = collect_path_params(&params, &cli_values, &workspace).expect("collect");
    assert_eq!(got, vec![(String::from("slug"), String::from("explicit"))]);
}

#[test]
fn collect_path_params_workspace_fallback() {
    let params = vec![param("slug", "slug"), param("project_id", "project")];
    let cli_values = vec![None, Some(String::from("p1"))];
    let workspace = Some(String::from("acme"));
    let got = collect_path_params(&params, &cli_values, &workspace).expect("collect");
    assert_eq!(
        got,
        vec![
            (String::from("slug"), String::from("acme")),
            (String::from("project_id"), String::from("p1")),
        ]
    );
}

#[test]
fn collect_path_params_missing_names_flag() {
    let params = vec![param("project_id", "project")];
    let cli_values = vec![None];
    let workspace = Some(String::from("acme"));
    assert_eq!(
        collect_path_params(&params, &cli_values, &workspace),
        Err(CliError::MissingArgument(String::from("project")))
    );

    let params = vec![param("slug", "slug")];
    let cli_values = vec![None];
    assert_eq!(
        collect_path_params(&params, &cli_values, &None),
        Err(CliError::MissingArgument(String::from("slug")))
    );
}

#[test]
fn collected_params_resolve_the_template() {
    let params = vec![param("slug", "slug"), param("project_id", "project")];
    let cli_values = vec![None, Some(String::from("p1"))];
    let workspace = Some(String::from("acme"));
    let bound = collect_path_params(&params, &cli_values, &workspace).expect("collect");
    let path = build_path("/workspaces/<str:slug>/projects/<uuid:project_id>/", &bound)
        .expect("build");
    assert_eq!(path, "/workspaces/acme/projects/p1/");
}

#[test]
fn deprecation_gate() {
    assert_eq!(check_deprecation(true, false), Err(CliError::DeprecatedEndpoint));
    assert!(check_deprecation(true, true).is_ok());
    assert!(check_deprecation(false, false).is_ok());
    assert!(check_deprecation(false, true).is_ok());
}

#[test]
fn body_source_conflict() {
    let inline = Some(String::from("{}"));
    let file = Some(String::from("body.json"));
    assert!(matches!(
        resolve_body_source(&inline, &file),
        Err(CliError::BodyConflict)
    ));
    let bad_inline = Some(String::from("not json at all"));
    assert!(matches!(
        resolve_body_source(&bad_inline, &file),
        Err(CliError::BodyConflict)
    ));
}

#[test]
fn body_source_selection() {
    let inline = Some(String::from("{\"a\":1}"));
    match resolve_body_source(&inline, &None).expect("resolve") {
        BodySource::Inline(s) => assert_eq!(s, "{\"a\":1}"),
        _ => panic!("expected inline body"),
    }
    let file = Some(String::from("body.json"));
    match resolve_body_source(&None, &file).expect("resolve") {
        BodySource::FromFile(p) => assert_eq!(p, "body.json"),
        _ => panic!("expected file body"),
    }
    assert!(matches!(resolve_body_source(&None, &None), Ok(BodySource::NoBody)));
}

#[test]
fn parse_body_accepts_only_json() {
    assert!(parse_body("{\"a\": [1, 2, 3]}").is_ok());
    assert!(parse_body("null").is_ok());
    assert_eq!(
        parse_body("definitely not json").map(|_| ()),
        Err(CliError::InvalidJsonBody)
    );
}

#[test]
fn response_body_falls_back_to_raw_text() {
    match parse_body_text(String::from("{\"ok\":true}")) {
        ParsedBody::Json(v) => assert_eq!(v["ok"], serde_json::Value::Bool(true)),
        ParsedBody::Raw(_) => panic!("expected JSON"),
    }
    match parse_body_text(String::from("plain text body")) {
        ParsedBody::Raw(s) => assert_eq!(s, "plain text body"),
        ParsedBody::Json(_) => panic!("expected raw fallback"),
    }
}

#[test]
fn ensure_success_accepts_2xx_only() {
    assert!(ensure_success(200).is_ok());
    assert!(ensure_success(299).is_ok());
    assert_eq!(ensure_success(199), Err(CliError::HttpStatus(199)));
    assert_eq!(ensure_success(404), Err(CliError::HttpStatus(404)));
    assert_eq!(ensure_success(500), Err(CliError::HttpStatus(500)));
}
