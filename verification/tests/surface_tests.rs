use plane_cli::build_cli;
use plane_cli::build_param_arg;
use plane_cli::global_flags;
use plane_cli::static_commands;
use plane_cli::visible_ops;
use plane_cli::CommandTree;
use plane_cli::Operation;
use plane_cli::Param;
use plane_cli::Resource;

fn param(name: &str, flag: &str) -> Param {
    Param { name: String::from(name), flag: String::from(flag) }
}

fn op(name: &str, method: &str, path: &str, deprecated: bool, params: Vec<Param>) -> Operation {
    Operation {
        name: String::from(name),
        method: String::from(method),
        path: String::from(path),
        deprecated,
        params,
    }
}

fn sample_tree() -> CommandTree {
    CommandTree {
        version: 3,
        base_path: String::from("/api/v1"),
        resources: vec![
            Resource {
                name: String::from("projects"),
                ops: vec![
                    op("list", "GET", "/p/", false, vec![param("slug", "slug")]),
                    op("close", "POST", "/p/<id>/", true, vec![param("id", "id")]),
                ],
            },
            Resource {
                name: String::from("issues"),
                ops: vec![op("list", "GET", "/i/", false, Vec::new())],
            },
        ],
    }
}

#[test]
fn cli_includes_all_ops() {
    let tree = sample_tree();
    let cli = build_cli(&tree);
    assert_eq!(cli.resources.len(), tree.resources.len());
    for (rc, resource) in cli.resources.iter().zip(tree.resources.iter()) {
        assert_eq!(rc.name, resource.name);
        assert_eq!(rc.ops.len(), resource.ops.len());
        for (oc, operation) in rc.ops.iter().zip(resource.ops.iter()) {
            assert_eq!(oc.name, operation.name);
        }
    }
}

#[test]
fn deprecated_ops_are_hidden_but_present() {
    let tree = sample_tree();
    let cli = build_cli(&tree);
    assert!(!cli.resources[0].ops[0].hidden);
    assert!(cli.resources[0].ops[1].hidden);
    assert_eq!(cli.resources[0].ops[1].about, "POST /p/<id>/");
}

#[test]
fn param_arg_required_unless_workspace_sourced() {
    let arg = build_param_arg(&param("slug", "slug"));
    assert!(!arg.required);
    let arg = build_param_arg(&param("project_id", "project"));
    assert!(arg.required);
    assert_eq!(arg.flag, "project");
    assert_eq!(arg.value_name, "project_id");
}

#[test]
fn global_flags_and_static_commands() {
    let flags = global_flags();
    let names: Vec<&str> = flags.iter().map(|f| f.name.as_str()).collect();
    assert_eq!(
        names,
        vec![
            "pretty",
            "raw",
            "include-deprecated",
            "query",
            "fields",
            "expand",
            "per-page",
            "cursor",
            "body-json",
            "body-file",
        ]
    );
    assert!(flags[3].repeatable && flags[5].repeatable);
    assert!(!flags[0].takes_value && flags[3].takes_value);
    assert_eq!(static_commands(), vec!["list", "describe", "tree", "request"]);
}

#[test]
fn listing_hides_deprecated_without_toggle() {
    let tree = sample_tree();
    let without = visible_ops(&tree.resources[0], false);
    assert_eq!(without, vec![(String::from("list"), String::from("GET"), false)]);
    let with = visible_ops(&tree.resources[0], true);
    assert_eq!(
        with,
        vec![
            (String::from("list"), String::from("GET"), false),
            (String::from("close"), String::from("POST"), true),
        ]
    );
}
