use vstd::prelude::*;
use vstd::string::StrSliceExecFns;
use vstd::string::StringExecFns;

use crate::template::key_list;
use crate::template::lemma_resolve_no_delimiters;
use crate::template::no_delims;
use crate::template::resolve_from;
use crate::template::segments_clean;
use crate::template::template_wf_from;
use crate::template::token_key;
use crate::template::PathResolution;
use crate::text::find_char;
use crate::text::find_from;
use crate::text::lemma_find_from;
use crate::text::str_eq;

verus! {

/// One path placeholder binding: the placeholder name and the
/// command-line flag that supplies its value.
#[derive(Debug, Clone)]
pub struct Param {
    pub name: String,
    pub flag: String,
}

/// One API action: its name, HTTP verb, path template with `<type:name>`
/// placeholders, deprecation mark, and declared parameters.
#[derive(Debug, Clone)]
pub struct Operation {
    pub name: String,
    pub method: String,
    pub path: String,
    pub deprecated: bool,
    pub params: Vec<Param>,
}

/// A named grouping of operations.
#[derive(Debug, Clone)]
pub struct Resource {
    pub name: String,
    pub ops: Vec<Operation>,
}

/// The whole declarative command tree, loaded once and never mutated.
#[derive(Debug, Clone)]
pub struct CommandTree {
    pub version: u32,
    pub base_path: String,
    pub resources: Vec<Resource>,
}

pub open spec fn param_names(ps: Seq<Param>) -> Seq<Seq<char>> {
    ps.map_values(|p: Param| p.name@)
}

pub open spec fn op_names(os: Seq<Operation>) -> Seq<Seq<char>> {
    os.map_values(|o: Operation| o.name@)
}

pub open spec fn resource_names(rs: Seq<Resource>) -> Seq<Seq<char>> {
    rs.map_values(|r: Resource| r.name@)
}

impl Operation {
    /// The set of placeholder names in the path template equals the set of
    /// declared parameter names: no duplicates on either side, nothing
    /// missing, nothing extra.
    pub open spec fn params_match_template(&self) -> bool {
        &&& template_wf_from(self.path@, 0)
        &&& key_list(self.path@, 0).no_duplicates()
        &&& param_names(self.params@).no_duplicates()
        &&& (forall|k: Seq<char>|
            key_list(self.path@, 0).contains(k) ==> param_names(self.params@).contains(k))
        &&& (forall|k: Seq<char>|
            param_names(self.params@).contains(k) ==> key_list(self.path@, 0).contains(k))
    }
}

impl Resource {
    /// No two sibling operations share a name, and every operation's
    /// template matches its parameters.
    pub open spec fn wf(&self) -> bool {
        &&& op_names(self.ops@).no_duplicates()
        &&& (forall|i: int|
            0 <= i < self.ops@.len() ==> (#[trigger] self.ops@[i]).params_match_template())
    }
}

impl CommandTree {
    /// The schema invariant a conformant tree satisfies: positive version,
    /// slash-prefixed base path, unique resource names, well-formed
    /// resources.
    pub open spec fn wf(&self) -> bool {
        &&& self.version > 0
        &&& self.base_path@.len() > 0
        &&& self.base_path@[0] == '/'
        &&& resource_names(self.resources@).no_duplicates()
        &&& (forall|i: int| 0 <= i < self.resources@.len() ==> (#[trigger] self.resources@[i]).wf())
    }
}

/// The placeholder keys of `path` in template order, or nothing when some
/// `<` is never closed.
fn template_keys(path: &str) -> (r: Option<Vec<String>>)
    ensures
        r is Some <==> template_wf_from(path@, 0),
        r matches Some(v) ==> v.deep_view() == key_list(path@, 0),
{
    let len: usize = path.unicode_len();
    let mut keys: Vec<String> = Vec::new();
    let mut cursor: usize = 0;
    loop
        invariant
            cursor <= len,
            len == path@.len(),
            template_wf_from(path@, 0) == template_wf_from(path@, cursor as int),
            template_wf_from(path@, 0) ==> key_list(path@, 0) == keys.deep_view() + key_list(
                path@,
                cursor as int,
            ),
        decreases len - cursor,
    {
        proof {
            lemma_find_from(path@, '<', cursor as int);
        }
        match find_char(path, '<', cursor) {
            None => {
                proof {
                    if template_wf_from(path@, 0) {
                        assert(keys.deep_view() + key_list(path@, cursor as int)
                            =~= keys.deep_view());
                    }
                }
                return Some(keys);
            },
            Some(start) => {
                proof {
                    lemma_find_from(path@, '>', start as int + 1);
                }
                match find_char(path, '>', start + 1) {
                    None => {
                        return None;
                    },
                    Some(end) => {
                        let token: &str = path.substring_char(start + 1, end);
                        let tlen: usize = token.unicode_len();
                        let key: &str = match find_char(token, ':', 0) {
                            None => token,
                            Some(ci) => {
                                proof {
                                    lemma_find_from(token@, ':', 0);
                                }
                                token.substring_char(ci + 1, tlen)
                            },
                        };
                        assert(key@ == token_key(path@.subrange(start as int + 1, end as int)));
                        let ghost prev = keys.deep_view();
                        keys.push(key.to_owned());
                        proof {
                            assert(keys.deep_view() =~= prev + seq![key@]);
                            if template_wf_from(path@, 0) {
                                assert(prev + (seq![key@] + key_list(path@, end as int + 1)) =~= (
                                prev + seq![key@]) + key_list(path@, end as int + 1));
                            }
                        }
                        cursor = end + 1;
                    },
                }
            },
        }
    }
}

/// Every name in `v` occurs only once.
fn names_unique(v: &Vec<String>) -> (r: bool)
    ensures
        r == v.deep_view().no_duplicates(),
{
    let mut i: usize = 0;
    while i < v.len()
        invariant
            i <= v.len(),
            forall|a: int, b: int|
                0 <= a < b < i ==> #[trigger] v.deep_view()[a] != #[trigger] v.deep_view()[b],
        decreases v.len() - i,
    {
        let mut j: usize = 0;
        while j < i
            invariant
                j <= i < v.len(),
                forall|a: int, b: int|
                    0 <= a < b < i ==> #[trigger] v.deep_view()[a] != #[trigger] v.deep_view()[b],
                forall|a: int| 0 <= a < j ==> #[trigger] v.deep_view()[a] != v.deep_view()[i as int],
            decreases i - j,
        {
            if str_eq(v[j].as_str(), v[i].as_str()) {
                assert(v.deep_view()[j as int] == v.deep_view()[i as int]);
                return false;
            }
            j = j + 1;
        }
        i = i + 1;
    }
    true
}

/// `x` occurs in `v`.
fn name_member(v: &Vec<String>, x: &str) -> (r: bool)
    ensures
        r == v.deep_view().contains(x@),
{
    let mut i: usize = 0;
    while i < v.len()
        invariant
            i <= v.len(),
            forall|j: int| 0 <= j < i ==> #[trigger] v.deep_view()[j] != x@,
        decreases v.len() - i,
    {
        if str_eq(v[i].as_str(), x) {
            assert(v.deep_view()[i as int] == x@);
            return true;
        }
        i = i + 1;
    }
    false
}

/// Every name of `a` occurs in `b`.
fn names_subset(a: &Vec<String>, b: &Vec<String>) -> (r: bool)
    ensures
        r == (forall|k: Seq<char>| a.deep_view().contains(k) ==> b.deep_view().contains(k)),
{
    let mut i: usize = 0;
    while i < a.len()
        invariant
            i <= a.len(),
            forall|j: int| 0 <= j < i ==> b.deep_view().contains(#[trigger] a.deep_view()[j]),
        decreases a.len() - i,
    {
        if !name_member(b, a[i].as_str()) {
            assert(a.deep_view().contains(a.deep_view()[i as int]));
            return false;
        }
        i = i + 1;
    }
    true
}

/// The declared parameter names of an operation, in declaration order.
fn param_name_vec(params: &Vec<Param>) -> (r: Vec<String>)
    ensures
        r.deep_view() == param_names(params@),
{
    let mut out: Vec<String> = Vec::new();
    let mut i: usize = 0;
    while i < params.len()
        invariant
            i <= params.len(),
            out.deep_view() =~= param_names(params@).subrange(0, i as int),
        decreases params.len() - i,
    {
        let ghost prev = out.deep_view();
        out.push(params[i].name.clone());
        proof {
            assert(out.deep_view() =~= prev + seq![params@[i as int].name@]);
            assert(prev + seq![params@[i as int].name@] =~= param_names(params@).subrange(
                0,
                i as int + 1,
            ));
        }
        i = i + 1;
    }
    proof {
        assert(param_names(params@).subrange(0, params.len() as int) =~= param_names(params@));
    }
    out
}

/// Checks that the operation's path placeholders and declared parameters
/// name each other exactly.
pub fn check_operation(op: &Operation) -> (r: bool)
    ensures
        r == op.params_match_template(),
{
    match template_keys(op.path.as_str()) {
        None => false,
        Some(keys) => {
            let pnames: Vec<String> = param_name_vec(&op.params);
            names_unique(&keys) && names_unique(&pnames) && names_subset(&keys, &pnames)
                && names_subset(&pnames, &keys)
        },
    }
}

/// Checks the whole schema invariant: positive version, slash-prefixed
/// base path, unique resource names, unique sibling operation names, and
/// template/parameter agreement for every operation.
pub fn validate_tree(tree: &CommandTree) -> (r: bool)
    ensures
        r == tree.wf(),
{
    if tree.version == 0 {
        return false;
    }
    if tree.base_path.as_str().unicode_len() == 0 {
        return false;
    }
    if tree.base_path.as_str().get_char(0) != '/' {
        return false;
    }
    let mut rnames: Vec<String> = Vec::new();
    let mut i: usize = 0;
    while i < tree.resources.len()
        invariant
            i <= tree.resources.len(),
            rnames.deep_view() =~= resource_names(tree.resources@).subrange(0, i as int),
        decreases tree.resources.len() - i,
    {
        let ghost prev = rnames.deep_view();
        rnames.push(tree.resources[i].name.clone());
        proof {
            assert(rnames.deep_view() =~= prev + seq![tree.resources@[i as int].name@]);
            assert(prev + seq![tree.resources@[i as int].name@] =~= resource_names(
                tree.resources@,
            ).subrange(0, i as int + 1));
        }
        i = i + 1;
    }
    proof {
        assert(resource_names(tree.resources@).subrange(0, tree.resources.len() as int)
            =~= resource_names(tree.resources@));
    }
    if !names_unique(&rnames) {
        return false;
    }
    let mut ri: usize = 0;
    while ri < tree.resources.len()
        invariant
            ri <= tree.resources.len(),
            tree.version > 0,
            tree.base_path@.len() > 0,
            tree.base_path@[0] == '/',
            resource_names(tree.resources@).no_duplicates(),
            forall|j: int| 0 <= j < ri ==> (#[trigger] tree.resources@[j]).wf(),
        decreases tree.resources.len() - ri,
    {
        let resource: &Resource = &tree.resources[ri];
        let mut onames: Vec<String> = Vec::new();
        let mut oi: usize = 0;
        while oi < resource.ops.len()
            invariant
                oi <= resource.ops.len(),
                ri < tree.resources.len(),
                resource.ops@ == tree.resources@[ri as int].ops@,
                onames.deep_view() =~= op_names(resource.ops@).subrange(0, oi as int),
            decreases resource.ops.len() - oi,
        {
            let ghost prev = onames.deep_view();
            onames.push(resource.ops[oi].name.clone());
            proof {
                assert(onames.deep_view() =~= prev + seq![resource.ops@[oi as int].name@]);
                assert(prev + seq![resource.ops@[oi as int].name@] =~= op_names(
                    resource.ops@,
                ).subrange(0, oi as int + 1));
            }
            oi = oi + 1;
        }
        proof {
            assert(op_names(resource.ops@).subrange(0, resource.ops.len() as int) =~= op_names(
                resource.ops@,
            ));
        }
        if !names_unique(&onames) {
            assert(!tree.resources@[ri as int].wf());
            return false;
        }
        let mut oj: usize = 0;
        while oj < resource.ops.len()
            invariant
                oj <= resource.ops.len(),
                ri < tree.resources.len(),
                resource.ops@ == tree.resources@[ri as int].ops@,
                op_names(resource.ops@).no_duplicates(),
                forall|j: int| 0 <= j < oj ==> (#[trigger] resource.ops@[j]).params_match_template(),
            decreases resource.ops.len() - oj,
        {
            if !check_operation(&resource.ops[oj]) {
                assert(resource.ops@[oj as int] == tree.resources@[ri as int].ops@[oj as int]);
                assert(!(tree.resources@[ri as int].ops@[oj as int]).params_match_template());
                assert(!tree.resources@[ri as int].wf());
                return false;
            }
            oj = oj + 1;
        }
        assert(resource.wf());
        ri = ri + 1;
    }
    true
}

/// For an operation whose placeholders and parameters name each other,
/// binding a delimiter-free value to every declared parameter resolves
/// the path template, and the resolved path holds no residual `<` or `>`.
/// A stray `>` in the template's literal text would end up in the output,
/// so the literal segments must be clean.
pub proof fn lemma_op_path_no_delimiters(op: &Operation, b: Map<Seq<char>, Seq<char>>)
    requires
        op.params_match_template(),
        segments_clean(op.path@, 0),
        forall|i: int|
            0 <= i < op.params@.len() ==> b.contains_key((#[trigger] op.params@[i]).name@),
        forall|k: Seq<char>| b.contains_key(k) ==> no_delims(b[k]),
    ensures
        resolve_from(op.path@, b, 0) matches PathResolution::Resolved(out) && no_delims(out),
{
    assert forall|k: Seq<char>| key_list(op.path@, 0).contains(k) implies b.contains_key(k) by {
        assert(param_names(op.params@).contains(k));
        let i = choose|i: int|
            0 <= i < param_names(op.params@).len() && #[trigger] param_names(op.params@)[i] == k;
        assert(b.contains_key(op.params@[i].name@));
    }
    lemma_resolve_no_delimiters(op.path@, b, 0);
}

/// The operation the invocation names: the first resource called `res`,
/// then its first operation called `op`.
pub open spec fn find_op_spec(tree: CommandTree, res: Seq<char>, op: Seq<char>) -> Option<
    Operation,
> {
    let ri = find_from(resource_names(tree.resources@), res, 0);
    if ri < 0 {
        None
    } else {
        let oi = find_from(op_names(tree.resources@[ri].ops@), op, 0);
        if oi < 0 {
            None
        } else {
            Some(tree.resources@[ri].ops@[oi])
        }
    }
}

/// Looks an operation up by resource and operation name.
pub fn find_op<'a>(tree: &'a CommandTree, res: &str, op: &str) -> (r: Option<&'a Operation>)
    ensures
        r matches Some(o) ==> find_op_spec(*tree, res@, op@) == Some(*o),
        r is None ==> find_op_spec(*tree, res@, op@) is None,
{
    let ghost rnames = resource_names(tree.resources@);
    let mut i: usize = 0;
    while i < tree.resources.len()
        invariant
            i <= tree.resources.len(),
            rnames == resource_names(tree.resources@),
            forall|j: int| 0 <= j < i ==> rnames[j] != res@,
        decreases tree.resources.len() - i,
    {
        if str_eq(tree.resources[i].name.as_str(), res) {
            proof {
                lemma_find_from(rnames, res@, 0);
                assert(rnames[i as int] == res@);
                assert(find_from(rnames, res@, 0) == i as int);
            }
            let resource: &Resource = &tree.resources[i];
            let ghost onames = op_names(resource.ops@);
            let mut j: usize = 0;
            while j < resource.ops.len()
                invariant
                    j <= resource.ops.len(),
                    i < tree.resources.len(),
                    resource.ops@ == tree.resources@[i as int].ops@,
                    find_from(rnames, res@, 0) == i as int,
                    rnames == resource_names(tree.resources@),
                    onames == op_names(resource.ops@),
                    forall|k: int| 0 <= k < j ==> onames[k] != op@,
                decreases resource.ops.len() - j,
            {
                if str_eq(resource.ops[j].name.as_str(), op) {
                    proof {
                        lemma_find_from(onames, op@, 0);
                        assert(onames[j as int] == op@);
                        assert(find_from(onames, op@, 0) == j as int);
                        assert(resource.ops@ == tree.resources@[i as int].ops@);
                        assert(find_op_spec(*tree, res@, op@) == Some(tree.resources@[i as int].ops@[j as int]));
                    }
                    return Some(&resource.ops[j]);
                }
                j = j + 1;
            }
            proof {
                lemma_find_from(onames, op@, 0);
            }
            return None;
        }
        i = i + 1;
    }
    proof {
        lemma_find_from(rnames, res@, 0);
    }
    None
}

} // verus!
