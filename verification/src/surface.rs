use vstd::prelude::*;
use vstd::string::StringExecFns;

use crate::request::is_workspace_name;
use crate::request::is_workspace_param;
use crate::schema::CommandTree;
use crate::schema::Operation;
use crate::schema::Param;
use crate::schema::Resource;

verus! {

/// One per-parameter flag of a leaf command: flag text from the
/// parameter's flag, value name from the parameter's name, mandatory
/// unless the parameter is workspace-sourced.
pub struct ArgSpec {
    pub name: String,
    pub flag: String,
    pub value_name: String,
    pub required: bool,
}

/// One leaf command: an operation, hidden from help when deprecated but
/// still invocable.
pub struct OpCommand {
    pub name: String,
    pub about: String,
    pub hidden: bool,
    pub args: Vec<ArgSpec>,
}

/// One resource sub-surface; selecting an operation is required.
pub struct ResourceCommand {
    pub name: String,
    pub ops: Vec<OpCommand>,
}

/// A global flag independent of any operation.
pub struct GlobalFlag {
    pub name: String,
    pub takes_value: bool,
    pub repeatable: bool,
}

/// The declarative command surface projected from the schema: the global
/// flags, the standalone commands, and one sub-surface per resource.
pub struct CommandSurface {
    pub globals: Vec<GlobalFlag>,
    pub statics: Vec<String>,
    pub resources: Vec<ResourceCommand>,
}

impl ArgSpec {
    pub open spec fn matches_param(&self, p: Param) -> bool {
        &&& self.name@ == p.name@
        &&& self.flag@ == p.flag@
        &&& self.value_name@ == p.name@
        &&& self.required == !is_workspace_name(p.name@)
    }
}

impl OpCommand {
    pub open spec fn matches_op(&self, o: Operation) -> bool {
        &&& self.name@ == o.name@
        &&& self.about@ == o.method@ + " "@ + o.path@
        &&& self.hidden == o.deprecated
        &&& self.args@.len() == o.params@.len()
        &&& (forall|i: int|
            0 <= i < o.params@.len() ==> (#[trigger] self.args@[i]).matches_param(o.params@[i]))
    }
}

impl ResourceCommand {
    pub open spec fn matches_resource(&self, r: Resource) -> bool {
        &&& self.name@ == r.name@
        &&& self.ops@.len() == r.ops@.len()
        &&& (forall|i: int|
            0 <= i < r.ops@.len() ==> (#[trigger] self.ops@[i]).matches_op(r.ops@[i]))
    }
}

pub open spec fn global_flag_names() -> Seq<Seq<char>> {
    seq![
        "pretty"@,
        "raw"@,
        "include-deprecated"@,
        "query"@,
        "fields"@,
        "expand"@,
        "per-page"@,
        "cursor"@,
        "body-json"@,
        "body-file"@,
    ]
}

pub open spec fn static_command_names() -> Seq<Seq<char>> {
    seq!["list"@, "describe"@, "tree"@, "request"@]
}

pub open spec fn str_view_fn() -> spec_fn(String) -> Seq<char> {
    |s: String| s@
}

impl CommandSurface {
    pub open spec fn matches_tree(&self, t: CommandTree) -> bool {
        &&& self.globals@.len() == global_flag_names().len()
        &&& (forall|i: int|
            0 <= i < self.globals@.len() ==> (#[trigger] self.globals@[i]).name@
                == global_flag_names()[i])
        &&& self.statics@.map_values(str_view_fn()) == static_command_names()
        &&& self.resources@.len() == t.resources@.len()
        &&& (forall|i: int|
            0 <= i < t.resources@.len() ==> (#[trigger] self.resources@[i]).matches_resource(
                t.resources@[i],
            ))
    }
}

/// Builds the flag of one declared parameter; it is optional on the
/// command line exactly when the parameter is workspace-sourced.
pub fn build_param_arg(param: &Param) -> (r: ArgSpec)
    ensures
        r.matches_param(*param),
{
    ArgSpec {
        name: param.name.clone(),
        flag: param.flag.clone(),
        value_name: param.name.clone(),
        required: !is_workspace_param(param.name.as_str()),
    }
}

/// The global flags: output shaping, deprecation override, query
/// overrides, field selection, expansion, pagination, and the two body
/// sources.
pub fn global_flags() -> (r: Vec<GlobalFlag>)
    ensures
        r@.len() == global_flag_names().len(),
        forall|i: int|
            0 <= i < r@.len() ==> (#[trigger] r@[i]).name@ == global_flag_names()[i],
        forall|i: int| 0 <= i < r@.len() ==> (#[trigger] r@[i]).takes_value == (i >= 3),
        forall|i: int| 0 <= i < r@.len() ==> (#[trigger] r@[i]).repeatable == (i == 3 || i == 5),
{
    let mut out: Vec<GlobalFlag> = Vec::new();
    out.push(GlobalFlag { name: "pretty".to_owned(), takes_value: false, repeatable: false });
    out.push(GlobalFlag { name: "raw".to_owned(), takes_value: false, repeatable: false });
    out.push(
        GlobalFlag { name: "include-deprecated".to_owned(), takes_value: false, repeatable: false },
    );
    out.push(GlobalFlag { name: "query".to_owned(), takes_value: true, repeatable: true });
    out.push(GlobalFlag { name: "fields".to_owned(), takes_value: true, repeatable: false });
    out.push(GlobalFlag { name: "expand".to_owned(), takes_value: true, repeatable: true });
    out.push(GlobalFlag { name: "per-page".to_owned(), takes_value: true, repeatable: false });
    out.push(GlobalFlag { name: "cursor".to_owned(), takes_value: true, repeatable: false });
    out.push(GlobalFlag { name: "body-json".to_owned(), takes_value: true, repeatable: false });
    out.push(GlobalFlag { name: "body-file".to_owned(), takes_value: true, repeatable: false });
    out
}

/// The standalone introspection commands and the raw-request escape
/// hatch.
pub fn static_commands() -> (r: Vec<String>)
    ensures
        r@.map_values(str_view_fn()) == static_command_names(),
{
    let mut out: Vec<String> = Vec::new();
    out.push("list".to_owned());
    out.push("describe".to_owned());
    out.push("tree".to_owned());
    out.push("request".to_owned());
    proof {
        assert(out@.map_values(str_view_fn()) =~= static_command_names());
    }
    out
}

fn build_op_command(op: &Operation) -> (r: OpCommand)
    ensures
        r.matches_op(*op),
{
    let mut about: String = op.method.clone();
    about.append(" ");
    about.append(op.path.as_str());
    let mut args: Vec<ArgSpec> = Vec::new();
    let mut i: usize = 0;
    while i < op.params.len()
        invariant
            i <= op.params.len(),
            args@.len() == i,
            forall|j: int|
                0 <= j < i ==> (#[trigger] args@[j]).matches_param(op.params@[j]),
        decreases op.params.len() - i,
    {
        args.push(build_param_arg(&op.params[i]));
        i = i + 1;
    }
    OpCommand { name: op.name.clone(), about, hidden: op.deprecated, args }
}

fn build_resource_command(resource: &Resource) -> (r: ResourceCommand)
    ensures
        r.matches_resource(*resource),
{
    let mut ops: Vec<OpCommand> = Vec::new();
    let mut i: usize = 0;
    while i < resource.ops.len()
        invariant
            i <= resource.ops.len(),
            ops@.len() == i,
            forall|j: int| 0 <= j < i ==> (#[trigger] ops@[j]).matches_op(resource.ops@[j]),
        decreases resource.ops.len() - i,
    {
        ops.push(build_op_command(&resource.ops[i]));
        i = i + 1;
    }
    ResourceCommand { name: resource.name.clone(), ops }
}

/// Walks every resource and operation in tree order and builds the full
/// command surface the schema describes.
pub fn build_cli(tree: &CommandTree) -> (r: CommandSurface)
    ensures
        r.matches_tree(*tree),
{
    let globals: Vec<GlobalFlag> = global_flags();
    let statics: Vec<String> = static_commands();
    let mut resources: Vec<ResourceCommand> = Vec::new();
    let mut i: usize = 0;
    while i < tree.resources.len()
        invariant
            i <= tree.resources.len(),
            resources@.len() == i,
            forall|j: int|
                0 <= j < i ==> (#[trigger] resources@[j]).matches_resource(tree.resources@[j]),
        decreases tree.resources.len() - i,
    {
        resources.push(build_resource_command(&tree.resources[i]));
        i = i + 1;
    }
    CommandSurface { globals, statics, resources }
}

/// What a listing shows of one operation: name, method, deprecation mark.
pub open spec fn op_listing(o: Operation) -> (Seq<char>, Seq<char>, bool) {
    (o.name@, o.method@, o.deprecated)
}

pub open spec fn listing_entry_fn() -> spec_fn(Operation) -> (Seq<char>, Seq<char>, bool) {
    |o: Operation| op_listing(o)
}

/// Whether a listing shows an operation.
pub open spec fn listing_pred(include_deprecated: bool) -> spec_fn(Operation) -> bool {
    |o: Operation| include_deprecated || !o.deprecated
}

pub open spec fn listing_view(es: Seq<(String, String, bool)>) -> Seq<(Seq<char>, Seq<char>, bool)> {
    es.map_values(|e: (String, String, bool)| (e.0@, e.1@, e.2))
}

/// The listing of a resource's operations: deprecated ones appear only
/// under the include-deprecated toggle.
pub fn visible_ops(resource: &Resource, include_deprecated: bool) -> (r: Vec<(String, String, bool)>)
    ensures
        listing_view(r@) == resource.ops@.filter(listing_pred(include_deprecated)).map_values(
            listing_entry_fn(),
        ),
{
    let ghost pred = listing_pred(include_deprecated);
    let mut out: Vec<(String, String, bool)> = Vec::new();
    let mut i: usize = 0;
    while i < resource.ops.len()
        invariant
            i <= resource.ops.len(),
            pred == listing_pred(include_deprecated),
            listing_view(out@) == resource.ops@.subrange(0, i as int).filter(pred).map_values(
                listing_entry_fn(),
            ),
        decreases resource.ops.len() - i,
    {
        let ghost prefix = resource.ops@.subrange(0, i as int);
        let ghost x = resource.ops@[i as int];
        proof {
            reveal(Seq::filter);
            assert(resource.ops@.subrange(0, i as int + 1) =~= prefix.push(x));
            assert(prefix.push(x).drop_last() =~= prefix);
            assert(prefix.push(x).last() == x);
            assert(prefix.push(x).filter(pred) == if pred(x) {
                prefix.filter(pred).push(x)
            } else {
                prefix.filter(pred)
            });
        }
        let ghost prev = out@;
        let op: &Operation = &resource.ops[i];
        if include_deprecated || !op.deprecated {
            out.push((op.name.clone(), op.method.clone(), op.deprecated));
            proof {
                assert(listing_view(out@) =~= listing_view(prev).push(op_listing(x)));
                assert(prefix.filter(pred).push(x).map_values(listing_entry_fn())
                    =~= prefix.filter(pred).map_values(listing_entry_fn()).push(op_listing(x)));
            }
        }
        i = i + 1;
    }
    proof {
        assert(resource.ops@.subrange(0, resource.ops.len() as int) =~= resource.ops@);
    }
    out
}

} // verus!
