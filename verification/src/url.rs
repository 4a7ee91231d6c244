use vstd::prelude::*;
use vstd::string::StrSliceExecFns;
use vstd::string::StringExecFns;

use crate::errors::CliError;
use crate::text::find_char;
use crate::text::find_from;
use crate::text::lemma_find_from;
use crate::text::starts_with_spec;
use crate::text::str_starts_with;
use crate::text::trim_both_spec;
use crate::text::trim_both_str;
use crate::text::trim_end_spec;
use crate::text::trim_end_str;
use crate::text::trim_start_spec;
use crate::text::trim_start_str;
use crate::text::trim_ws_spec;
use crate::text::trim_ws_str;

verus! {

/// The request URL: origin with its trailing slashes dropped, then the base
/// path trimmed of slashes on both ends, then the path trimmed of leading
/// slashes, joined by single slashes. An empty base path or path collapses
/// its slash; a trailing slash explicit in `path` itself survives the join.
pub open spec fn join_url_spec(base: Seq<char>, base_path: Seq<char>, path: Seq<char>) -> Seq<
    char,
> {
    let b = trim_end_spec(base, '/');
    let bp = trim_both_spec(base_path, '/');
    let p = trim_start_spec(path, '/');
    if bp.len() == 0 {
        b + seq!['/'] + p
    } else if p.len() == 0 {
        b + seq!['/'] + bp
    } else {
        b + seq!['/'] + bp + seq!['/'] + p
    }
}

/// Joins origin, base path and path with single slashes.
pub fn join_url(base: &str, base_path: &str, path: &str) -> (r: String)
    ensures
        r@ == join_url_spec(base@, base_path@, path@),
{
    let b: &str = trim_end_str(base, '/');
    let bp: &str = trim_both_str(base_path, '/');
    let p: &str = trim_start_str(path, '/');
    proof {
        reveal_strlit("/");
        assert("/"@ =~= seq!['/']);
    }
    let mut out: String = b.to_owned();
    out.append("/");
    if bp.unicode_len() == 0 {
        out.append(p);
    } else if p.unicode_len() == 0 {
        out.append(bp);
    } else {
        out.append(bp);
        out.append("/");
        out.append(p);
    }
    proof {
        assert(out@ =~= join_url_spec(base@, base_path@, path@));
    }
    out
}

/// Index of the first `://` at or after `from`, or -1 when there is none.
pub open spec fn scheme_sep_from(s: Seq<char>, from: int) -> int
    decreases s.len() - from when 0 <= from
{
    if from < 0 || from + 3 > s.len() {
        -1
    } else if s[from] == ':' && s[from + 1] == '/' && s[from + 2] == '/' {
        from
    } else {
        scheme_sep_from(s, from + 1)
    }
}

proof fn lemma_scheme_sep_from(s: Seq<char>, from: int)
    requires
        0 <= from,
    ensures
        scheme_sep_from(s, from) != -1 ==> {
            let r = scheme_sep_from(s, from);
            &&& from <= r && r + 3 <= s.len()
            &&& s[r] == ':' && s[r + 1] == '/' && s[r + 2] == '/'
        },
    decreases s.len() - from,
{
    if from + 3 <= s.len() && !(s[from] == ':' && s[from + 1] == '/' && s[from + 2] == '/') {
        lemma_scheme_sep_from(s, from + 1);
    }
}

proof fn lemma_scheme_sep_at(s: Seq<char>, from: int, i: int)
    requires
        0 <= from <= i,
        forall|j: int| from <= j < i ==> !(j + 3 <= s.len() && #[trigger] s[j] == ':' && s[j + 1]
            == '/' && s[j + 2] == '/'),
        i == s.len() || (i + 3 <= s.len() && s[i] == ':' && s[i + 1] == '/' && s[i + 2] == '/'),
    ensures
        i == s.len() ==> scheme_sep_from(s, from) == -1,
        i < s.len() ==> scheme_sep_from(s, from) == i,
    decreases s.len() - from,
{
    if from < i {
        lemma_scheme_sep_at(s, from + 1, i);
    }
}

fn find_scheme_sep(s: &str) -> (r: Option<usize>)
    ensures
        r matches Some(i) ==> i == scheme_sep_from(s@, 0),
        r is None ==> scheme_sep_from(s@, 0) == -1,
{
    let len: usize = s.unicode_len();
    if len < 3 {
        proof {
            lemma_scheme_sep_at(s@, 0, s@.len() as int);
        }
        return None;
    }
    let stop: usize = len - 3;
    let mut i: usize = 0;
    while i <= stop
        invariant
            len == s@.len(),
            stop == len - 3,
            i <= stop + 1,
            forall|j: int| 0 <= j < i ==> !(j + 3 <= s@.len() && #[trigger] s@[j] == ':' && s@[j + 1]
                == '/' && s@[j + 2] == '/'),
        decreases stop + 1 - i,
    {
        if s.get_char(i) == ':' && s.get_char(i + 1) == '/' && s.get_char(i + 2) == '/' {
            proof {
                lemma_scheme_sep_at(s@, 0, i as int);
            }
            return Some(i);
        }
        i = i + 1;
    }
    proof {
        assert(forall|j: int| 0 <= j < s@.len() ==> !(j + 3 <= s@.len() && #[trigger] s@[j] == ':'
            && s@[j + 1] == '/' && s@[j + 2] == '/'));
        lemma_scheme_sep_at(s@, 0, s@.len() as int);
    }
    None
}

/// The override string after trimming whitespace on both ends and every
/// trailing slash.
pub open spec fn trimmed_override(s: Seq<char>) -> Seq<char> {
    trim_end_spec(trim_ws_spec(s), '/')
}

/// What splitting a combined base-URL override yields: the origin runs to
/// the first slash after the scheme separator, the base path from it on
/// (the default when nothing follows the origin).
pub open spec fn split_base_url_spec(s: Seq<char>, default_path: Seq<char>) -> Result<
    (Seq<char>, Seq<char>),
    CliError,
> {
    let t = trimmed_override(s);
    if t.len() == 0 {
        Err(CliError::EmptyBaseUrl)
    } else {
        let sep = scheme_sep_from(t, 0);
        if sep < 0 {
            Err(CliError::MissingScheme)
        } else {
            let pi = find_from(t, '/', sep + 3);
            if pi < 0 {
                Ok((t, default_path))
            } else {
                Ok((t.subrange(0, pi), t.subrange(pi, t.len() as int)))
            }
        }
    }
}

/// Splits a combined base-URL override into origin and base path.
pub fn split_base_url(base_url: &str, default_path: &str) -> (r: Result<(String, String), CliError>)
    ensures
        ({
            let s = split_base_url_spec(base_url@, default_path@);
            match r {
                Ok(p) => s matches Ok(q) && p.0@ == q.0 && p.1@ == q.1,
                Err(e) => s matches Err(e2) && e == e2,
            }
        }),
{
    let t0: &str = trim_ws_str(base_url);
    let t: &str = trim_end_str(t0, '/');
    let tlen: usize = t.unicode_len();
    if tlen == 0 {
        return Err(CliError::EmptyBaseUrl);
    }
    match find_scheme_sep(t) {
        None => Err(CliError::MissingScheme),
        Some(sep) => {
            proof {
                lemma_scheme_sep_from(t@, 0);
                lemma_find_from(t@, '/', sep as int + 3);
            }
            match find_char(t, '/', sep + 3) {
                None => Ok((t.to_owned(), default_path.to_owned())),
                Some(pi) => Ok(
                    (t.substring_char(0, pi).to_owned(), t.substring_char(pi, tlen).to_owned()),
                ),
            }
        },
    }
}

/// Where requests go when no override names an origin.
pub open spec fn default_origin() -> Seq<char> {
    "https://api.plane.so"@
}

/// Resolves the API origin and base path from the environment-supplied
/// overrides: a combined override is split and wins over everything;
/// otherwise the separate origin and path overrides apply independently,
/// each falling back to its default.
pub fn resolve_api_base(
    base_url: &Option<String>,
    api_url: &Option<String>,
    base_path: &Option<String>,
    default_base_path: &String,
) -> (r: Result<(String, String), CliError>)
    ensures
        base_url matches Some(u) ==> ({
            let s = split_base_url_spec(u@, default_base_path@);
            match r {
                Ok(p) => s matches Ok(q) && p.0@ == q.0 && p.1@ == q.1,
                Err(e) => s matches Err(e2) && e == e2,
            }
        }),
        base_url is None ==> (r matches Ok(p) && ({
            &&& (match api_url {
                Some(a) => p.0@ == a@,
                None => p.0@ == default_origin(),
            })
            &&& (match base_path {
                Some(b) => p.1@ == b@,
                None => p.1@ == default_base_path@,
            })
        })),
{
    match base_url {
        Some(u) => split_base_url(u.as_str(), default_base_path.as_str()),
        None => {
            let origin: String = match api_url {
                Some(a) => a.clone(),
                None => "https://api.plane.so".to_owned(),
            };
            let path: String = match base_path {
                Some(b) => b.clone(),
                None => default_base_path.clone(),
            };
            Ok((origin, path))
        },
    }
}

/// The URL of a raw escape-hatch request: an absolute URL passes through,
/// an absolute path hangs off the origin alone, anything else joins
/// through the base path.
pub open spec fn raw_request_url_spec(
    api_url: Seq<char>,
    base_path: Seq<char>,
    path: Seq<char>,
) -> Seq<char> {
    if starts_with_spec(path, "http://"@) || starts_with_spec(path, "https://"@) {
        path
    } else if path.len() > 0 && path[0] == '/' {
        trim_end_spec(api_url, '/') + path
    } else {
        join_url_spec(api_url, base_path, path)
    }
}

/// Builds the URL of a raw escape-hatch request.
pub fn raw_request_url(api_url: &str, base_path: &str, path: &str) -> (r: String)
    ensures
        r@ == raw_request_url_spec(api_url@, base_path@, path@),
{
    if str_starts_with(path, "http://") || str_starts_with(path, "https://") {
        return path.to_owned();
    }
    if path.unicode_len() > 0 && path.get_char(0) == '/' {
        let mut out: String = trim_end_str(api_url, '/').to_owned();
        out.append(path);
        return out;
    }
    join_url(api_url, base_path, path)
}

} // verus!
