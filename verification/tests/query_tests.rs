use plane_cli::build_query_params;
use plane_cli::parse_query_pair;
use plane_cli::CliError;

#[test]
fn parse_query_pair_validation() {
    let (k, v) = parse_query_pair("a=b").expect("parse");
    assert_eq!(k, "a");
    assert_eq!(v, "b");
    assert!(parse_query_pair("a=").is_err());
    assert!(parse_query_pair("=b").is_err());
    assert!(parse_query_pair("ab").is_err());
}

#[test]
fn parse_query_pair_trims_and_splits_once() {
    let (k, v) = parse_query_pair(" key = a=b ").expect("parse");
    assert_eq!(k, "key");
    assert_eq!(v, "a=b");
}

#[test]
fn parse_query_pair_error_names_input() {
    assert_eq!(
        parse_query_pair("oops"),
        Err(CliError::InvalidQueryPair(String::from("oops")))
    );
}

#[test]
fn build_query_params_order() {
    let queries = vec![String::from("a=1"), String::from("b=2")];
    let fields = Some(String::from("id,name"));
    let expands = vec![String::from("members"), String::from("labels")];
    let per_page = Some(String::from("50"));
    let cursor = Some(String::from("abc"));
    let got = build_query_params(&queries, &fields, &expands, &per_page, &cursor).expect("build");
    let want = vec![
        (String::from("a"), String::from("1")),
        (String::from("b"), String::from("2")),
        (String::from("fields"), String::from("id,name")),
        (String::from("expand"), String::from("members")),
        (String::from("expand"), String::from("labels")),
        (String::from("per_page"), String::from("50")),
        (String::from("cursor"), String::from("abc")),
    ];
    assert_eq!(got, want);
}

#[test]
fn build_query_params_empty() {
    let got = build_query_params(&Vec::new(), &None, &Vec::new(), &None, &None).expect("build");
    assert!(got.is_empty());
}

#[test]
fn build_query_params_rejects_bad_override() {
    let queries = vec![String::from("a=1"), String::from("broken")];
    let got = build_query_params(&queries, &None, &Vec::new(), &None, &None);
    assert_eq!(got, Err(CliError::InvalidQueryPair(String::from("broken"))));
}
