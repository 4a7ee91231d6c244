use vstd::prelude::*;
use vstd::string::StrSliceExecFns;
use vstd::string::StringExecFns;

use crate::errors::CliError;
use crate::schema::Param;
use crate::template::pairs_view;
use crate::text::str_eq;

verus! {

/// The recognized spellings of a workspace/slug identifier, and nothing
/// else.
pub open spec fn is_workspace_name(s: Seq<char>) -> bool {
    ||| s == "slug"@
    ||| s == "workspace"@
    ||| s == "workspace_slug"@
    ||| s == "workspaceSlug"@
}

/// A parameter may fall back to the environment-provided workspace
/// identifier exactly when its name is one of the recognized spellings.
pub fn is_workspace_param(name: &str) -> (r: bool)
    ensures
        r == is_workspace_name(name@),
{
    str_eq(name, "slug") || str_eq(name, "workspace") || str_eq(name, "workspace_slug") || str_eq(
        name,
        "workspaceSlug",
    )
}

/// Two-stage parameter sourcing: the explicit command-line value wins;
/// a workspace-named parameter may fall back to the workspace identifier;
/// anything else stays unbound.
pub open spec fn binding_of(
    name: Seq<char>,
    cli: Option<Seq<char>>,
    workspace: Option<Seq<char>>,
) -> Option<Seq<char>> {
    if cli is Some {
        cli
    } else if is_workspace_name(name) {
        workspace
    } else {
        None
    }
}

pub open spec fn opt_view(o: Option<String>) -> Option<Seq<char>> {
    match o {
        Some(s) => Some(s@),
        None => None,
    }
}

/// Collects one value per declared parameter: the command-line value if
/// given, else the workspace fallback for workspace-named parameters.
/// Fails naming the flag of the first parameter left without a value.
pub fn collect_path_params(
    params: &Vec<Param>,
    cli_values: &Vec<Option<String>>,
    workspace: &Option<String>,
) -> (r: Result<Vec<(String, String)>, CliError>)
    requires
        cli_values@.len() == params@.len(),
    ensures
        r is Ok <==> (forall|i: int|
            0 <= i < params@.len() ==> binding_of(
                (#[trigger] params@[i]).name@,
                opt_view(cli_values@[i]),
                opt_view(*workspace),
            ) is Some),
        r matches Ok(v) ==> {
            &&& v@.len() == params@.len()
            &&& (forall|i: int|
                0 <= i < params@.len() ==> #[trigger] pairs_view(v@)[i] == (
                    params@[i].name@,
                    binding_of(
                        params@[i].name@,
                        opt_view(cli_values@[i]),
                        opt_view(*workspace),
                    )->0,
                ))
        },
        r matches Err(e) ==> (e matches CliError::MissingArgument(flag) && (exists|i: int|
            {
                &&& 0 <= i < params@.len()
                &&& binding_of(
                    (#[trigger] params@[i]).name@,
                    opt_view(cli_values@[i]),
                    opt_view(*workspace),
                ) is None
                &&& flag@ == params@[i].flag@
            })),
{
    let mut out: Vec<(String, String)> = Vec::new();
    let mut i: usize = 0;
    while i < params.len()
        invariant
            i <= params.len(),
            cli_values@.len() == params@.len(),
            out@.len() == i,
            forall|j: int|
                0 <= j < i ==> binding_of(
                    (#[trigger] params@[j]).name@,
                    opt_view(cli_values@[j]),
                    opt_view(*workspace),
                ) is Some,
            forall|j: int|
                0 <= j < i ==> #[trigger] pairs_view(out@)[j] == (
                    params@[j].name@,
                    binding_of(
                        params@[j].name@,
                        opt_view(cli_values@[j]),
                        opt_view(*workspace),
                    )->0,
                ),
        decreases params.len() - i,
    {
        let ghost prev = out@;
        match &cli_values[i] {
            Some(s) => {
                out.push((params[i].name.clone(), s.clone()));
                proof {
                    assert(pairs_view(out@) =~= pairs_view(prev) + seq![
                        (params@[i as int].name@, s@),
                    ]);
                }
            },
            None => {
                if is_workspace_param(params[i].name.as_str()) {
                    match workspace {
                        Some(w) => {
                            out.push((params[i].name.clone(), w.clone()));
                            proof {
                                assert(pairs_view(out@) =~= pairs_view(prev) + seq![
                                    (params@[i as int].name@, w@),
                                ]);
                            }
                        },
                        None => {
                            return Err(CliError::MissingArgument(params[i].flag.clone()));
                        },
                    }
                } else {
                    return Err(CliError::MissingArgument(params[i].flag.clone()));
                }
            },
        }
        i = i + 1;
    }
    Ok(out)
}

/// Gate on deprecated operations: they are refused unless the override
/// toggle is set, before any request is assembled or sent.
pub fn check_deprecation(deprecated: bool, include_deprecated: bool) -> (r: Result<(), CliError>)
    ensures
        r is Ok <==> (!deprecated || include_deprecated),
        r is Err ==> r->Err_0 == CliError::DeprecatedEndpoint,
{
    if deprecated && !include_deprecated {
        Err(CliError::DeprecatedEndpoint)
    } else {
        Ok(())
    }
}

/// Where the request body comes from: nowhere, inline JSON text, or a
/// file to be read by the caller.
pub enum BodySource {
    NoBody,
    Inline(String),
    FromFile(String),
}

/// Decides the body source. Supplying both the inline body and the body
/// file is a conflict, whatever their contents.
pub fn resolve_body_source(body_json: &Option<String>, body_file: &Option<String>) -> (r: Result<
    BodySource,
    CliError,
>)
    ensures
        (body_json is Some && body_file is Some) <==> r matches Err(CliError::BodyConflict),
        r is Err ==> r->Err_0 == CliError::BodyConflict,
        body_json matches Some(s) ==> body_file is Some || (r matches Ok(b) && b matches
        BodySource::Inline(v) && v@ == s@),
        body_file matches Some(s) ==> body_json is Some || (r matches Ok(b) && b matches
        BodySource::FromFile(v) && v@ == s@),
        (body_json is None && body_file is None) ==> (r matches Ok(b) && b is NoBody),
{
    match (body_json, body_file) {
        (Some(_), Some(_)) => Err(CliError::BodyConflict),
        (Some(s), None) => Ok(BodySource::Inline(s.clone())),
        (None, Some(s)) => Ok(BodySource::FromFile(s.clone())),
        (None, None) => Ok(BodySource::NoBody),
    }
}

} // verus!
