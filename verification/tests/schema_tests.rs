use plane_cli::check_operation;
use plane_cli::find_op;
use plane_cli::validate_tree;
use plane_cli::CommandTree;
use plane_cli::Operation;
use plane_cli::Param;
use plane_cli::Resource;

fn param(name: &str, flag: &str) -> Param {
    Param { name: String::from(name), flag: String::from(flag) }
}

fn op(name: &str, method: &str, path: &str, deprecated: bool, params: Vec<Param>) -> Operation {
    Operation {
        name: String::from(name),
        method: String::from(method),
        path: String::from(path),
        deprecated,
        params,
    }
}

fn sample_tree() -> CommandTree {
    CommandTree {
        version: 1,
        base_path: String::from("/api/v1"),
        resources: vec![
            Resource {
                name: String::from("projects"),
                ops: vec![
                    op(
                        "list",
                        "GET",
                        "/workspaces/<str:slug>/projects/",
                        false,
                        vec![param("slug", "slug")],
                    ),
                    op(
                        "retrieve",
                        "GET",
                        "/workspaces/<str:slug>/projects/<uuid:project_id>/",
                        false,
                        vec![param("slug", "slug"), param("project_id", "project")],
                    ),
                ],
            },
            Resource {
                name: String::from("issues"),
                ops: vec![op(
                    "archive",
                    "POST",
                    "/workspaces/<slug>/issues/",
                    true,
                    vec![param("slug", "slug")],
                )],
            },
        ],
    }
}

#[test]
fn sample_tree_is_well_formed() {
    let tree = sample_tree();
    assert!(tree.version > 0);
    assert!(tree.base_path.starts_with('/'));
    assert!(validate_tree(&tree));
}

#[test]
fn operation_params_must_match_template() {
    let missing_param = op("list", "GET", "/w/<slug>/p/<project_id>/", false, vec![param("slug", "slug")]);
    assert!(!check_operation(&missing_param));

    let extra_param = op(
        "list",
        "GET",
        "/w/<slug>/",
        false,
        vec![param("slug", "slug"), param("project_id", "project")],
    );
    assert!(!check_operation(&extra_param));

    let matching = op(
        "list",
        "GET",
        "/w/<str:slug>/p/<uuid:project_id>/",
        false,
        vec![param("slug", "slug"), param("project_id", "project")],
    );
    assert!(check_operation(&matching));
}

#[test]
fn operation_with_unclosed_token_is_rejected() {
    let broken = op("list", "GET", "/w/<slug", false, vec![param("slug", "slug")]);
    assert!(!check_operation(&broken));
}

#[test]
fn duplicate_sibling_operations_are_rejected() {
    let mut tree = sample_tree();
    let dup = tree.resources[0].ops[0].clone();
    tree.resources[0].ops.push(dup);
    assert!(!validate_tree(&tree));
}

#[test]
fn duplicate_resource_names_are_rejected() {
    let mut tree = sample_tree();
    let dup = tree.resources[0].clone();
    tree.resources.push(dup);
    assert!(!validate_tree(&tree));
}

#[test]
fn tree_base_path_must_start_with_slash() {
    let mut tree = sample_tree();
    tree.base_path = String::from("api/v1");
    assert!(!validate_tree(&tree));
}

#[test]
fn find_op_looks_up_by_names() {
    let tree = sample_tree();
    let found = find_op(&tree, "projects", "retrieve").expect("found");
    assert_eq!(found.method, "GET");
    assert_eq!(found.path, "/workspaces/<str:slug>/projects/<uuid:project_id>/");
    assert!(find_op(&tree, "projects", "destroy").is_none());
    assert!(find_op(&tree, "cycles", "list").is_none());
}
